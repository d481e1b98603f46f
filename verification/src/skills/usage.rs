//! Per-skill provenance and usage tracking.
//!
//! Every skill gets a row recording who created it, how often it's read and
//! patched, and its lifecycle state. Curation only ever operates on skills
//! created by the agent: user-authored and registry-installed skills are
//! outside curator jurisdiction unless the user explicitly adopts them.
use vstd::prelude::*;
use crate::llm::history::copy_opt;
use crate::order;
use crate::order::Ranked;
use crate::table::{Keyed, Table};
use crate::text;

verus! {

broadcast use vstd::seq::group_seq_axioms;

/// Who initiated a skill write. Set by the process constructing the tool
/// server, never supplied by the model. Autonomous writers (`Agent`) get a
/// narrower blast radius: they can't touch installed, pinned, or
/// instance-level skills, and their deletes archive instead of remove.
#[derive(Debug, Clone, Copy, PartialEq, Eq, Structural)]
pub enum WriteOrigin {
    /// A present human: channel conversations, API, CLI.
    User,
    /// An autonomous process: reflection branches, cortex curation.
    Agent,
}

/// A row of the usage table.
#[derive(Debug)]
pub struct SkillUsageRecord {
    pub skill_name: String,
    pub created_by: String,
    pub origin_conversation_id: Option<String>,
    pub state: String,
    pub pinned: bool,
    pub read_count: i64,
    pub patch_count: i64,
    pub last_read_at: Option<String>,
    pub last_patched_at: Option<String>,
    pub created_at: String,
    pub archived_at: Option<String>,
}

/// What a usage row says.
pub struct UsageModel {
    pub skill_name: Seq<char>,
    pub created_by: Seq<char>,
    pub origin_conversation_id: Option<Seq<char>>,
    pub state: Seq<char>,
    pub pinned: bool,
    pub read_count: i64,
    pub patch_count: i64,
    pub last_read_at: Option<Seq<char>>,
    pub last_patched_at: Option<Seq<char>>,
    pub created_at: Seq<char>,
    pub archived_at: Option<Seq<char>>,
}

impl View for SkillUsageRecord {
    type V = UsageModel;

    open spec fn view(&self) -> UsageModel {
        UsageModel {
            skill_name: self.skill_name@,
            created_by: self.created_by@,
            origin_conversation_id: text::opt_text(self.origin_conversation_id),
            state: self.state@,
            pinned: self.pinned,
            read_count: self.read_count,
            patch_count: self.patch_count,
            last_read_at: text::opt_text(self.last_read_at),
            last_patched_at: text::opt_text(self.last_patched_at),
            created_at: self.created_at@,
            archived_at: text::opt_text(self.archived_at),
        }
    }
}

impl Clone for SkillUsageRecord {
    fn clone(&self) -> (copy: Self)
        ensures
            copy == *self,
    {
        SkillUsageRecord {
            skill_name: self.skill_name.clone(),
            created_by: self.created_by.clone(),
            origin_conversation_id: copy_opt(&self.origin_conversation_id),
            state: self.state.clone(),
            pinned: self.pinned,
            read_count: self.read_count,
            patch_count: self.patch_count,
            last_read_at: copy_opt(&self.last_read_at),
            last_patched_at: copy_opt(&self.last_patched_at),
            created_at: self.created_at.clone(),
            archived_at: copy_opt(&self.archived_at),
        }
    }
}

impl Keyed for SkillUsageRecord {
    open spec fn keyed_by(&self) -> Seq<char> {
        self.skill_name@
    }

    fn key(&self) -> (key: &str) {
        self.skill_name.as_str()
    }
}

impl Ranked for SkillUsageRecord {
    open spec fn outranks(&self, other: &Self) -> bool {
        text::precedes(self.skill_name@, other.skill_name@)
    }

    fn comes_first(&self, other: &Self) -> (yes: bool) {
        text::comes_before(self.skill_name.as_str(), other.skill_name.as_str())
    }
}

/// The row that a skill starts with.
pub open spec fn first_row(name: Seq<char>, created_by: Seq<char>, now: Seq<char>) -> UsageModel {
    UsageModel {
        skill_name: name,
        created_by,
        origin_conversation_id: None,
        state: "active"@,
        pinned: false,
        read_count: 0,
        patch_count: 0,
        last_read_at: None,
        last_patched_at: None,
        created_at: now,
        archived_at: None,
    }
}

fn start_row(name: String, created_by: &str, now: &str) -> (row: SkillUsageRecord)
    ensures
        row@ == first_row(name@, created_by@, now@),
{
    SkillUsageRecord {
        skill_name: name,
        created_by: created_by.to_owned(),
        origin_conversation_id: None,
        state: "active".to_owned(),
        pinned: false,
        read_count: 0,
        patch_count: 0,
        last_read_at: None,
        last_patched_at: None,
        created_at: now.to_owned(),
        archived_at: None,
    }
}

/// The row of a skill, or the one it starts with.
pub open spec fn row_or_first(
    rows: Map<Seq<char>, SkillUsageRecord>,
    name: Seq<char>,
    created_by: Seq<char>,
    now: Seq<char>,
) -> UsageModel {
    if rows.contains_key(name) {
        rows[name]@
    } else {
        first_row(name, created_by, now)
    }
}

/// The state of a skill that was just used.
pub open spec fn awakened(state: Seq<char>) -> Seq<char> {
    if state == "stale"@ {
        "active"@
    } else {
        state
    }
}

fn awaken(state: String) -> (awake: String)
    ensures
        awake@ == awakened(state@),
{
    if text::same(state.as_str(), "stale") {
        "active".to_owned()
    } else {
        state
    }
}

/// Whether one row was changed or added, and no other.
pub open spec fn only_row(
    before: Map<Seq<char>, SkillUsageRecord>,
    after: Map<Seq<char>, SkillUsageRecord>,
    name: Seq<char>,
) -> bool {
    after.contains_key(name) && after.remove(name) == before.remove(name)
}

/// Whether a name is listed, in lower case.
pub open spec fn named(names: Seq<String>, key: Seq<char>) -> bool {
    exists|k: int| 0 <= k < names.len() && text::lowercased((#[trigger] names[k])@) == key
}

/// Provenance and usage counters of skills.
#[derive(Debug)]
pub struct SkillUsageStore {
    pub table: Table<SkillUsageRecord>,
}

/// A row after a read.
pub open spec fn read_row(row: UsageModel, now: Seq<char>) -> UsageModel {
    UsageModel {
        read_count: (row.read_count + 1) as i64,
        last_read_at: Some(now),
        state: awakened(row.state),
        ..row
    }
}

/// A row after a patch or edit.
pub open spec fn patch_row(row: UsageModel, now: Seq<char>) -> UsageModel {
    UsageModel {
        patch_count: (row.patch_count + 1) as i64,
        last_patched_at: Some(now),
        state: awakened(row.state),
        ..row
    }
}

impl SkillUsageStore {
    /// The row of each skill.
    pub open spec fn rows(self) -> Map<Seq<char>, SkillUsageRecord> {
        self.table@
    }

    /// Whether no skill has two rows.
    pub open spec fn well_formed(self) -> bool {
        self.table.well_formed()
    }

    /// A store without rows.
    pub fn new() -> (store: Self)
        ensures
            store.well_formed(),
            store.rows() == Map::<Seq<char>, SkillUsageRecord>::empty(),
    {
        SkillUsageStore { table: Table::new() }
    }

    /// The row of a skill, or the one it starts with.
    fn row_of(&self, name: String, created_by: &str, now: &str) -> (row: SkillUsageRecord)
        requires
            self.well_formed(),
        ensures
            row@ == row_or_first(self.rows(), name@, created_by@, now@),
            self.rows().contains_key(name@) ==> row == self.rows()[name@],
    {
        match self.table.get(name.as_str()) {
            Some(row) => row.clone(),
            None => start_row(name, created_by, now),
        }
    }

    fn put_row(&mut self, row: SkillUsageRecord)
        requires
            old(self).well_formed(),
        ensures
            final(self).well_formed(),
            final(self).rows() == old(self).rows().insert(row.skill_name@, row),
            only_row(old(self).rows(), final(self).rows(), row.skill_name@),
    {
        let ghost before = self.rows();
        self.table.put(row);
        assert(before.insert(row.skill_name@, row).remove(row.skill_name@) =~= before.remove(row.skill_name@));
    }

    /// Seeds rows for skills that don't have one yet.
    ///
    /// Seeded skills get `created_by = 'user'` and `created_at = now`: a newly
    /// noticed skill's staleness clock starts at discovery, not at epoch, and
    /// unattributed skills default to the origin that protects them from
    /// auto-curation.
    pub fn seed(&mut self, names: &Vec<String>, now: &str)
        requires
            old(self).well_formed(),
        ensures
            final(self).well_formed(),
            forall|key: Seq<char>| #[trigger]
                final(self).rows().contains_key(key) == (old(self).rows().contains_key(key) || named(names@, key)),
            forall|key: Seq<char>| #[trigger]
                old(self).rows().contains_key(key) ==> final(self).rows()[key] == old(self).rows()[key],
            forall|key: Seq<char>|
                #![trigger final(self).rows()[key]]
                !old(self).rows().contains_key(key) && named(names@, key) ==> final(self).rows()[key]@ == first_row(
                    key,
                    "user"@,
                    now@,
                ),
    {
        let ghost before = self.rows();
        let mut k: usize = 0;
        assert(forall|key: Seq<char>| !named(names@.take(0), key));
        while k < names.len()
            invariant
                self.well_formed(),
                k <= names@.len(),
                forall|key: Seq<char>| #[trigger]
                    self.rows().contains_key(key) == (before.contains_key(key) || named(names@.take(k as int), key)),
                forall|key: Seq<char>| #[trigger] before.contains_key(key) ==> self.rows()[key] == before[key],
                forall|key: Seq<char>|
                    #![trigger self.rows()[key]]
                    !before.contains_key(key) && named(names@.take(k as int), key) ==> self.rows()[key]@ == first_row(
                        key,
                        "user"@,
                        now@,
                    ),
            decreases names@.len() - k,
        {
            let key = text::to_lowercase(names[k].as_str());
            let ghost wanted = key@;
            proof {
                named_next(names@, k as int);
            }
            if !self.table.contains(key.as_str()) {
                let row = start_row(key, "user", now);
                self.put_row(row);
            }
            k = k + 1;
        }
        assert(names@.take(k as int) =~= names@);
    }

    /// Records a read: bumps the counter, stamps the time, and reactivates a
    /// stale skill.
    pub fn record_read(&mut self, name: &str, now: &str)
        requires
            old(self).well_formed(),
            row_or_first(old(self).rows(), text::lowercased(name@), "user"@, now@).read_count < i64::MAX,
        ensures
            final(self).well_formed(),
            only_row(old(self).rows(), final(self).rows(), text::lowercased(name@)),
            final(self).rows()[text::lowercased(name@)]@ == read_row(
                row_or_first(old(self).rows(), text::lowercased(name@), "user"@, now@),
                now@,
            ),
    {
        let key = text::to_lowercase(name);
        proof {
            self.named_by_key(key@);
        }
        let mut row = self.row_of(key, "user", now);
        row.read_count = row.read_count + 1;
        row.last_read_at = Some(now.to_owned());
        row.state = awaken(row.state);
        self.put_row(row);
    }

    /// Records a read, unless the counter is at its limit. Tells whether it did.
    pub fn record_read_if_counted(&mut self, name: &str, now: &str) -> (recorded: bool)
        requires
            old(self).well_formed(),
        ensures
            final(self).well_formed(),
            recorded == (row_or_first(old(self).rows(), text::lowercased(name@), "user"@, now@).read_count
                < i64::MAX),
            !recorded ==> final(self).rows() == old(self).rows(),
            recorded ==> only_row(old(self).rows(), final(self).rows(), text::lowercased(name@)),
            recorded ==> final(self).rows()[text::lowercased(name@)]@ == read_row(
                row_or_first(old(self).rows(), text::lowercased(name@), "user"@, now@),
                now@,
            ),
    {
        let key = text::to_lowercase(name);
        let row = self.row_of(key, "user", now);
        if row.read_count == i64::MAX {
            return false;
        }
        self.record_read(name, now);
        true
    }

    /// Marks skills as registry-installed, creating rows as needed.
    ///
    /// An install that replaces an existing row also clears any agent
    /// conversation origin: the content on disk no longer comes from that
    /// conversation.
    pub fn record_installed(&mut self, names: &Vec<String>, now: &str)
        requires
            old(self).well_formed(),
        ensures
            final(self).well_formed(),
            forall|key: Seq<char>| #[trigger]
                final(self).rows().contains_key(key) == (old(self).rows().contains_key(key) || named(names@, key)),
            forall|key: Seq<char>|
                #![trigger final(self).rows()[key]]
                old(self).rows().contains_key(key) && !named(names@, key) ==> final(self).rows()[key] == old(
                    self,
                ).rows()[key],
            forall|key: Seq<char>|
                #![trigger final(self).rows()[key]]
                named(names@, key) ==> final(self).rows()[key]@ == (UsageModel {
                    created_by: "installed"@,
                    origin_conversation_id: None,
                    ..row_or_first(old(self).rows(), key, "installed"@, now@)
                }),
    {
        let ghost before = self.rows();
        let mut k: usize = 0;
        assert(forall|key: Seq<char>| !named(names@.take(0), key));
        while k < names.len()
            invariant
                self.well_formed(),
                k <= names@.len(),
                forall|key: Seq<char>| #[trigger]
                    self.rows().contains_key(key) == (before.contains_key(key) || named(names@.take(k as int), key)),
                forall|key: Seq<char>|
                    #![trigger self.rows()[key]]
                    before.contains_key(key) && !named(names@.take(k as int), key) ==> self.rows()[key] == before[key],
                forall|key: Seq<char>|
                    #![trigger self.rows()[key]]
                    named(names@.take(k as int), key) ==> self.rows()[key]@ == (UsageModel {
                        created_by: "installed"@,
                        origin_conversation_id: None,
                        ..row_or_first(before, key, "installed"@, now@)
                    }),
            decreases names@.len() - k,
        {
            let key = text::to_lowercase(names[k].as_str());
            let ghost wanted = key@;
            proof {
                named_next(names@, k as int);
                self.named_by_key(key@);
            }
            let mut row = self.row_of(key, "installed", now);
            row.created_by = "installed".to_owned();
            row.origin_conversation_id = None;
            self.put_row(row);
            k = k + 1;
        }
        assert(names@.take(k as int) =~= names@);
    }

    /// Records a skill created through `skill_manage`.
    ///
    /// `conversation_id` is stored only for agent-created skills: it's the
    /// provenance link curation and the inspector surface later.
    pub fn record_created(&mut self, name: &str, origin: WriteOrigin, conversation_id: Option<String>, now: &str)
        requires
            old(self).well_formed(),
        ensures
            final(self).well_formed(),
            only_row(old(self).rows(), final(self).rows(), text::lowercased(name@)),
            final(self).rows()[text::lowercased(name@)]@ == (UsageModel {
                created_by: if origin == WriteOrigin::Agent {
                    "agent"@
                } else {
                    "user"@
                },
                origin_conversation_id: if origin == WriteOrigin::Agent {
                    text::opt_text(conversation_id)
                } else {
                    None
                },
                state: "active"@,
                archived_at: None,
                ..row_or_first(old(self).rows(), text::lowercased(name@), "user"@, now@)
            }),
    {
        let key = text::to_lowercase(name);
        proof {
            self.named_by_key(key@);
        }
        let mut row = self.row_of(key, "user", now);
        match origin {
            WriteOrigin::Agent => {
                row.created_by = "agent".to_owned();
                row.origin_conversation_id = conversation_id;
            },
            WriteOrigin::User => {
                row.created_by = "user".to_owned();
                row.origin_conversation_id = None;
            },
        }
        row.state = "active".to_owned();
        row.archived_at = None;
        self.put_row(row);
    }

    /// Records a patch or edit: bumps the counter and stamps the time.
    pub fn record_patch(&mut self, name: &str, now: &str)
        requires
            old(self).well_formed(),
            row_or_first(old(self).rows(), text::lowercased(name@), "user"@, now@).patch_count < i64::MAX,
        ensures
            final(self).well_formed(),
            only_row(old(self).rows(), final(self).rows(), text::lowercased(name@)),
            final(self).rows()[text::lowercased(name@)]@ == patch_row(
                row_or_first(old(self).rows(), text::lowercased(name@), "user"@, now@),
                now@,
            ),
    {
        let key = text::to_lowercase(name);
        proof {
            self.named_by_key(key@);
        }
        let mut row = self.row_of(key, "user", now);
        row.patch_count = row.patch_count + 1;
        row.last_patched_at = Some(now.to_owned());
        row.state = awaken(row.state);
        self.put_row(row);
    }

    /// Records a patch or edit, unless the counter is at its limit. Tells whether it did.
    pub fn record_patch_if_counted(&mut self, name: &str, now: &str) -> (recorded: bool)
        requires
            old(self).well_formed(),
        ensures
            final(self).well_formed(),
            recorded == (row_or_first(old(self).rows(), text::lowercased(name@), "user"@, now@).patch_count
                < i64::MAX),
            !recorded ==> final(self).rows() == old(self).rows(),
            recorded ==> only_row(old(self).rows(), final(self).rows(), text::lowercased(name@)),
            recorded ==> final(self).rows()[text::lowercased(name@)]@ == patch_row(
                row_or_first(old(self).rows(), text::lowercased(name@), "user"@, now@),
                now@,
            ),
    {
        let key = text::to_lowercase(name);
        let row = self.row_of(key, "user", now);
        if row.patch_count == i64::MAX {
            return false;
        }
        self.record_patch(name, now);
        true
    }

    /// Sets or clears the pin flag.
    pub fn set_pinned(&mut self, name: &str, pinned: bool, now: &str)
        requires
            old(self).well_formed(),
        ensures
            final(self).well_formed(),
            only_row(old(self).rows(), final(self).rows(), text::lowercased(name@)),
            final(self).rows()[text::lowercased(name@)]@ == (UsageModel {
                pinned,
                ..row_or_first(old(self).rows(), text::lowercased(name@), "user"@, now@)
            }),
    {
        let key = text::to_lowercase(name);
        proof {
            self.named_by_key(key@);
        }
        let mut row = self.row_of(key, "user", now);
        row.pinned = pinned;
        self.put_row(row);
    }

    /// Hands a skill to curation: flips `created_by` to 'agent'.
    ///
    /// This is the explicit user act that puts a skill inside curator
    /// jurisdiction; it is never done automatically.
    pub fn adopt(&mut self, name: &str, now: &str)
        requires
            old(self).well_formed(),
        ensures
            final(self).well_formed(),
            only_row(old(self).rows(), final(self).rows(), text::lowercased(name@)),
            final(self).rows()[text::lowercased(name@)]@ == (UsageModel {
                created_by: "agent"@,
                ..row_or_first(old(self).rows(), text::lowercased(name@), "agent"@, now@)
            }),
    {
        let key = text::to_lowercase(name);
        proof {
            self.named_by_key(key@);
        }
        let mut row = self.row_of(key, "agent", now);
        row.created_by = "agent".to_owned();
        self.put_row(row);
    }

    /// Marks a skill archived.
    pub fn set_archived(&mut self, name: &str, now: &str)
        requires
            old(self).well_formed(),
        ensures
            final(self).well_formed(),
            only_row(old(self).rows(), final(self).rows(), text::lowercased(name@)),
            final(self).rows()[text::lowercased(name@)]@ == (UsageModel {
                state: "archived"@,
                archived_at: Some(now@),
                ..row_or_first(old(self).rows(), text::lowercased(name@), "user"@, now@)
            }),
    {
        let key = text::to_lowercase(name);
        proof {
            self.named_by_key(key@);
        }
        let mut row = self.row_of(key, "user", now);
        row.state = "archived".to_owned();
        row.archived_at = Some(now.to_owned());
        self.put_row(row);
    }

    /// Marks an archived skill active again. A skill without a row gets none.
    pub fn set_restored(&mut self, name: &str)
        requires
            old(self).well_formed(),
        ensures
            final(self).well_formed(),
            !old(self).rows().contains_key(text::lowercased(name@)) ==> final(self).rows() == old(self).rows(),
            old(self).rows().contains_key(text::lowercased(name@)) ==> only_row(
                old(self).rows(),
                final(self).rows(),
                text::lowercased(name@),
            ) && final(self).rows()[text::lowercased(name@)]@ == (UsageModel {
                state: "active"@,
                archived_at: None,
                ..old(self).rows()[text::lowercased(name@)]@
            }),
    {
        let key = text::to_lowercase(name);
        proof {
            self.named_by_key(key@);
        }
        let found = match self.table.get(key.as_str()) {
            Some(row) => Some(row.clone()),
            None => None,
        };
        if let Some(found) = found {
            let mut row = found;
            row.state = "active".to_owned();
            row.archived_at = None;
            self.put_row(row);
        }
    }

    /// Drops the row for a removed skill.
    pub fn remove(&mut self, name: &str)
        requires
            old(self).well_formed(),
        ensures
            final(self).well_formed(),
            final(self).rows() == old(self).rows().remove(text::lowercased(name@)),
    {
        let key = text::to_lowercase(name);
        let _ = self.table.remove(key.as_str());
    }

    /// A single skill's usage record.
    pub fn get(&self, name: &str) -> (record: Option<SkillUsageRecord>)
        requires
            self.well_formed(),
        ensures
            match record {
                Some(record) => self.rows().contains_key(text::lowercased(name@)) && record
                    == self.rows()[text::lowercased(name@)],
                None => !self.rows().contains_key(text::lowercased(name@)),
            },
    {
        let key = text::to_lowercase(name);
        match self.table.get(key.as_str()) {
            Some(row) => Some(row.clone()),
            None => None,
        }
    }

    /// All usage records, ordered by skill name.
    pub fn list(&self) -> (records: Vec<SkillUsageRecord>)
        requires
            self.well_formed(),
        ensures
            records@ == order::ranked(self.table.rows@),
    {
        let mut all: Vec<SkillUsageRecord> = Vec::new();
        let mut k: usize = 0;
        while k < self.table.rows.len()
            invariant
                k <= self.table.rows@.len(),
                all@ == self.table.rows@.take(k as int),
            decreases self.table.rows@.len() - k,
        {
            all.push(self.table.rows[k].clone());
            assert(self.table.rows@.take(k + 1) =~= self.table.rows@.take(k as int).push(self.table.rows@[k as int]));
            k = k + 1;
        }
        assert(all@ =~= self.table.rows@);
        order::rank(all)
    }

    proof fn named_by_key(self, key: Seq<char>)
        requires
            self.well_formed(),
        ensures
            self.rows().contains_key(key) ==> self.rows()[key].skill_name@ == key,
    {
        if self.rows().contains_key(key) {
            let at = choose|at: int| crate::table::at_key(self.table.rows@, key, at);
            assert(crate::table::at_key(self.table.rows@, key, at));
        }
    }
}

proof fn named_next(names: Seq<String>, k: int)
    requires
        0 <= k < names.len(),
    ensures
        forall|key: Seq<char>| #[trigger]
            named(names.take(k + 1), key) == (named(names.take(k), key) || key == text::lowercased(names[k]@)),
{
    assert forall|key: Seq<char>| #[trigger]
        named(names.take(k + 1), key) == (named(names.take(k), key) || key == text::lowercased(names[k]@)) by {
        if named(names.take(k), key) {
            let i = choose|i: int| 0 <= i < k && text::lowercased((#[trigger] names.take(k)[i])@) == key;
            assert(names.take(k + 1)[i] == names.take(k)[i]);
        }
        if key == text::lowercased(names[k]@) {
            assert(names.take(k + 1)[k] == names[k]);
        }
        if named(names.take(k + 1), key) {
            let i = choose|i: int| 0 <= i < k + 1 && text::lowercased((#[trigger] names.take(k + 1)[i])@) == key;
            if i < k {
                assert(names.take(k)[i] == names.take(k + 1)[i]);
            }
        }
    }
}

// ---------------------------------------------------------------------------
// Laws
// ---------------------------------------------------------------------------

/// The listing of a store shows each row of it, and nothing else.
pub proof fn law_the_listing_shows_every_row(store: SkillUsageStore, key: Seq<char>)
    requires
        store.well_formed(),
    ensures
        store.rows().contains_key(key) <==> exists|k: int|
            0 <= k < order::ranked(store.table.rows@).len() && (#[trigger] order::ranked(store.table.rows@)[k])
                == store.rows()[key] && store.rows()[key].skill_name@ == key,
{
    let rows = store.table.rows@;
    let sorted = order::ranked(rows);
    order::law_ranking_is_a_rearrangement(rows);
    broadcast use vstd::seq_lib::group_to_multiset_ensures;

    store.named_by_key(key);
    if store.rows().contains_key(key) {
        let at = choose|at: int| crate::table::at_key(rows, key, at);
        crate::table::mapped_at(rows, at);
        assert(rows.to_multiset().contains(rows[at]));
        assert(sorted.contains(rows[at]));
        let k = choose|k: int| 0 <= k < sorted.len() && sorted[k] == rows[at];
        assert(sorted[k] == store.rows()[key]);
    }
    if exists|k: int|
        0 <= k < sorted.len() && (#[trigger] sorted[k]) == store.rows()[key] && store.rows()[key].skill_name@ == key {
        let k = choose|k: int|
            0 <= k < sorted.len() && (#[trigger] sorted[k]) == store.rows()[key] && store.rows()[key].skill_name@
                == key;
        assert(sorted.to_multiset().contains(sorted[k]));
        assert(rows.contains(sorted[k]));
        let at = choose|at: int| 0 <= at < rows.len() && rows[at] == sorted[k];
        assert(crate::table::at_key(rows, key, at));
    }
}

/// A skill starts active, unpinned and unread, under the name and origin it was
/// noticed with.
pub proof fn law_a_skill_starts_unused(name: Seq<char>, created_by: Seq<char>, now: Seq<char>)
    ensures
        ({
            let row = first_row(name, created_by, now);
            &&& row.skill_name == name
            &&& row.created_by == created_by
            &&& row.created_at == now
            &&& row.state == "active"@
            &&& !row.pinned
            &&& row.read_count == 0 && row.patch_count == 0
            &&& row.last_read_at is None && row.last_patched_at is None && row.archived_at is None
            &&& row.origin_conversation_id is None
        }),
{
}

/// A row that is there is kept; only a skill without one starts afresh.
pub proof fn law_a_row_is_never_started_twice(
    rows: Map<Seq<char>, SkillUsageRecord>,
    name: Seq<char>,
    created_by: Seq<char>,
    now: Seq<char>,
)
    ensures
        rows.contains_key(name) ==> row_or_first(rows, name, created_by, now) == rows[name]@,
        !rows.contains_key(name) ==> row_or_first(rows, name, created_by, now).created_at == now && row_or_first(
            rows,
            name,
            created_by,
            now,
        ).created_by == created_by && row_or_first(rows, name, created_by, now).skill_name == name,
{
}

/// A read counts one read and stamps it, and a patch one patch: neither touches
/// the other's count, the pin, the origin or the time of creation, and both
/// wake a stale skill but no archived one.
pub proof fn law_uses_are_counted_apart(row: UsageModel, now: Seq<char>)
    requires
        row.read_count < i64::MAX,
        row.patch_count < i64::MAX,
    ensures
        read_row(row, now).read_count == row.read_count + 1,
        read_row(row, now).patch_count == row.patch_count,
        read_row(row, now).last_read_at == Some(now),
        read_row(row, now).last_patched_at == row.last_patched_at,
        patch_row(row, now).patch_count == row.patch_count + 1,
        patch_row(row, now).read_count == row.read_count,
        patch_row(row, now).last_patched_at == Some(now),
        patch_row(row, now).last_read_at == row.last_read_at,
        row.state == "stale"@ ==> read_row(row, now).state == "active"@ && patch_row(row, now).state == "active"@,
        row.state != "stale"@ ==> read_row(row, now).state == row.state && patch_row(row, now).state == row.state,
        read_row(row, now).skill_name == row.skill_name && patch_row(row, now).skill_name == row.skill_name,
        read_row(row, now).created_by == row.created_by && patch_row(row, now).created_by == row.created_by,
        read_row(row, now).created_at == row.created_at && patch_row(row, now).created_at == row.created_at,
        read_row(row, now).pinned == row.pinned && patch_row(row, now).pinned == row.pinned,
        read_row(row, now).archived_at == row.archived_at && patch_row(row, now).archived_at == row.archived_at,
        read_row(row, now).origin_conversation_id == row.origin_conversation_id,
        patch_row(row, now).origin_conversation_id == row.origin_conversation_id,
{
}

/// A change of one row leaves every other row as it was.
pub proof fn law_one_row_changes_alone(
    before: Map<Seq<char>, SkillUsageRecord>,
    after: Map<Seq<char>, SkillUsageRecord>,
    name: Seq<char>,
    other: Seq<char>,
)
    requires
        only_row(before, after, name),
        other != name,
    ensures
        after.contains_key(name),
        after.contains_key(other) == before.contains_key(other),
        before.contains_key(other) ==> after[other] == before[other],
{
    assert(after.remove(name).contains_key(other) == before.remove(name).contains_key(other));
    assert(before.contains_key(other) ==> after.remove(name)[other] == before.remove(name)[other]);
}

} // verus!
