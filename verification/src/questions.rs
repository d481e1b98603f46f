//! Pending question store for the ask tool.
//!
//! Keeps questions that the agent has asked the user so inbound interaction
//! clicks can be correlated back to the original question context.
use vstd::prelude::*;
use crate::table;
use crate::table::{Keyed, Table};
use crate::text;
use crate::time;
use crate::time::Pattern;

verus! {

broadcast use vstd::seq::group_seq_axioms;

/// Default TTL for pending questions (7 days).
pub const DEFAULT_QUESTION_TTL_DAYS: i64 = 7;

/// A single option for the ask tool.
#[derive(Debug)]
pub struct AskOption {
    pub label: String,
    pub description: Option<String>,
}

/// A persisted pending question row.
#[derive(Debug)]
pub struct PendingQuestion {
    pub question_id: String,
    pub agent_id: String,
    pub channel_id: String,
    pub question: String,
    pub options: Vec<AskOption>,
    pub multi_select: bool,
    pub message_ref: Option<String>,
    pub created_at: String,
    pub resolved_at: Option<String>,
    pub answer: Option<Vec<String>>,
}

impl Keyed for PendingQuestion {
    open spec fn keyed_by(&self) -> Seq<char> {
        self.question_id@
    }

    fn key(&self) -> (key: &str) {
        self.question_id.as_str()
    }
}

/// Input for creating a pending question.
#[derive(Debug)]
pub struct NewQuestion {
    pub question_id: String,
    pub agent_id: String,
    pub channel_id: String,
    pub question: String,
    pub options: Vec<AskOption>,
    pub multi_select: bool,
    pub message_ref: Option<String>,
}

/// Whether a row is that of a new question, unanswered.
pub open spec fn asks(row: PendingQuestion, new: NewQuestion, created_at: Seq<char>) -> bool {
    &&& row.question_id == new.question_id
    &&& row.agent_id == new.agent_id
    &&& row.channel_id == new.channel_id
    &&& row.question == new.question
    &&& row.options == new.options
    &&& row.multi_select == new.multi_select
    &&& row.message_ref == new.message_ref
    &&& row.created_at@ == created_at
    &&& row.resolved_at is None
    &&& row.answer is None
}

/// Whether a row is another one with an answer.
pub open spec fn answers(row: PendingQuestion, before: PendingQuestion, answer: Vec<String>, now: int) -> bool {
    &&& row.question_id == before.question_id
    &&& row.agent_id == before.agent_id
    &&& row.channel_id == before.channel_id
    &&& row.question == before.question
    &&& row.options == before.options
    &&& row.multi_select == before.multi_select
    &&& row.message_ref == before.message_ref
    &&& row.created_at == before.created_at
    &&& text::opt_text(row.resolved_at) == Some(time::written(now, Pattern::Zulu))
    &&& row.answer == Some(answer)
}

/// The time before which a question is too old; none where the TTL is
/// negative or reaches beyond the calendar.
pub open spec fn cutoff_of(ttl_days: int, now: int) -> Option<int> {
    let oldest = now - ttl_days * 86400;
    if ttl_days >= 0 && time::in_calendar(oldest) {
        Some(oldest)
    } else {
        None
    }
}

/// Whether a question is older than a cutoff: since its answer, or since it
/// was asked where there is none. The cutoff is written as the stamp that it is
/// held against.
pub open spec fn expired(row: PendingQuestion, cutoff: int) -> bool {
    match row.resolved_at {
        Some(at) => text::precedes(at@, time::written(cutoff, Pattern::Zulu)),
        None => text::precedes(row.created_at@, time::written(cutoff, Pattern::Second)),
    }
}

/// The questions that were asked.
#[derive(Debug)]
pub struct QuestionStore {
    pub table: Table<PendingQuestion>,
}

impl QuestionStore {
    /// Whether no question stands twice.
    pub open spec fn well_formed(self) -> bool {
        self.table.well_formed()
    }

    /// The questions by their ids.
    pub open spec fn rows(self) -> Map<Seq<char>, PendingQuestion> {
        self.table@
    }

    /// A store without questions.
    pub fn new() -> (store: Self)
        ensures
            store.well_formed(),
            store.rows() == Map::<Seq<char>, PendingQuestion>::empty(),
    {
        QuestionStore { table: Table::new() }
    }

    /// Inserts a new pending question. Fails where its id is taken.
    pub fn insert(&mut self, question: NewQuestion, created_at: &str) -> (inserted: bool)
        requires
            old(self).well_formed(),
        ensures
            final(self).well_formed(),
            inserted == !old(self).rows().contains_key(question.question_id@),
            !inserted ==> final(self).rows() == old(self).rows(),
            inserted ==> exists|row: PendingQuestion|
                #[trigger] asks(row, question, created_at@) && final(self).rows() == old(self).rows().insert(
                    question.question_id@,
                    row,
                ),
    {
        if self.table.contains(question.question_id.as_str()) {
            return false;
        }
        let row = PendingQuestion {
            question_id: question.question_id,
            agent_id: question.agent_id,
            channel_id: question.channel_id,
            question: question.question,
            options: question.options,
            multi_select: question.multi_select,
            message_ref: question.message_ref,
            created_at: created_at.to_owned(),
            resolved_at: None,
            answer: None,
        };
        assert(asks(row, question, created_at@));
        self.table.put(row);
        true
    }

    /// Looks up a pending question by ID.
    pub fn get(&self, question_id: &str) -> (row: Option<&PendingQuestion>)
        requires
            self.well_formed(),
        ensures
            match row {
                Some(row) => self.rows().contains_key(question_id@) && *row == self.rows()[question_id@],
                None => !self.rows().contains_key(question_id@),
            },
    {
        self.table.get(question_id)
    }

    /// Resolves a pending question with the given answer labels. Returns `true`
    /// if the question was found and unresolved, `false` if already resolved or
    /// not found.
    pub fn resolve(&mut self, question_id: &str, answer: Vec<String>, now: i64) -> (resolved: bool)
        requires
            old(self).well_formed(),
            time::in_calendar(now as int),
        ensures
            final(self).well_formed(),
            resolved == (old(self).rows().contains_key(question_id@) && old(
                self).rows()[question_id@].resolved_at is None),
            !resolved ==> final(self).rows() == old(self).rows(),
            resolved ==> exists|row: PendingQuestion|
                #[trigger] answers(row, old(self).rows()[question_id@], answer, now as int) && final(self).rows()
                    == old(self).rows().insert(question_id@, row),
    {
        let open = match self.table.get(question_id) {
            Some(row) => row.resolved_at.is_none(),
            None => false,
        };
        if !open {
            return false;
        }
        let ghost before = self.rows();
        proof {
            let at = choose|at: int| table::at_key(self.table.rows@, question_id@, at);
            assert(table::at_key(self.table.rows@, question_id@, at));
            table::mapped_at(self.table.rows@, at);
        }
        if let Some(found) = self.table.remove(question_id) {
            let mut row = found;
            row.resolved_at = Some(time::write_utc(now, Pattern::Zulu));
            row.answer = Some(answer);
            assert(answers(row, before[question_id@], answer, now as int));
            self.table.put(row);
            assert(before.remove(question_id@).insert(question_id@, row) =~= before.insert(question_id@, row));
        }
        true
    }

    /// Prunes resolved questions older than the TTL, and unanswered questions
    /// older than the TTL (expired). Returns the count of removed rows.
    pub fn prune_expired(&mut self, ttl_days: i64, now: i64) -> (removed: usize)
        requires
            old(self).well_formed(),
        ensures
            final(self).well_formed(),
            removed == old(self).table.rows@.len() - final(self).table.rows@.len(),
            forall|id: Seq<char>| #[trigger]
                final(self).rows().contains_key(id) == (old(self).rows().contains_key(id) && !(cutoff_of(
                    ttl_days as int,
                    now as int,
                ) matches Some(cutoff) && expired(old(self).rows()[id], cutoff))),
            forall|id: Seq<char>| #[trigger]
                final(self).rows().contains_key(id) ==> final(self).rows()[id] == old(self).rows()[id],
    {
        let oldest: i128 = now as i128 - ttl_days as i128 * 86400;
        if ttl_days < 0 || oldest < time::FIRST_SECOND as i128 || oldest > time::LAST_SECOND as i128 {
            return 0;
        }
        let cutoff: i64 = oldest as i64;
        let asked_since = time::write_utc(cutoff, Pattern::Second);
        let resolved_since = time::write_utc(cutoff, Pattern::Zulu);
        let ghost rows = self.table.rows@;
        let ghost before = self.table@;
        let mut marks: Vec<bool> = Vec::new();
        let mut k: usize = 0;
        while k < self.table.rows.len()
            invariant
                k <= self.table.rows@.len(),
                self.table.rows@ == rows,
                marks@.len() == k,
                asked_since@ == time::written(cutoff as int, Pattern::Second),
                resolved_since@ == time::written(cutoff as int, Pattern::Zulu),
                forall|i: int| 0 <= i < k ==> #[trigger] marks@[i] == !expired(rows[i], cutoff as int),
            decreases self.table.rows@.len() - k,
        {
            let row = &self.table.rows[k];
            let old_row = match &row.resolved_at {
                Some(at) => text::comes_before(at.as_str(), resolved_since.as_str()),
                None => text::comes_before(row.created_at.as_str(), asked_since.as_str()),
            };
            marks.push(!old_row);
            k = k + 1;
        }
        let removed: usize = self.table.retain(&marks);
        proof {
            assert forall|id: Seq<char>| #[trigger]
                self.rows().contains_key(id) == (before.contains_key(id) && !expired(before[id], cutoff as int)) by {
                if self.table@.contains_key(id) {
                    let at = choose|at: int| #[trigger] table::at_key(rows, id, at) && marks@[at];
                    table::mapped_at(rows, at);
                }
                if before.contains_key(id) {
                    let at = choose|at: int| #[trigger] table::at_key(rows, id, at);
                    table::mapped_at(rows, at);
                    assert(table::at_key(rows, id, at));
                    if !expired(before[id], cutoff as int) {
                        assert(marks@[at]);
                    }
                }
            }
        }
        removed
    }
}

// ---------------------------------------------------------------------------
// Laws
// ---------------------------------------------------------------------------

/// A question is stored as it was asked, unanswered.
pub proof fn law_a_question_is_stored_unanswered(row: PendingQuestion, new: NewQuestion, created_at: Seq<char>)
    requires
        asks(row, new, created_at),
    ensures
        row.resolved_at is None && row.answer is None,
        row.question_id == new.question_id && row.agent_id == new.agent_id && row.channel_id == new.channel_id,
        row.question == new.question && row.options == new.options && row.multi_select == new.multi_select,
        row.message_ref == new.message_ref && row.created_at@ == created_at,
{
}

/// An answer is added to its question, which stays what it was.
pub proof fn law_an_answer_leaves_the_question(
    row: PendingQuestion,
    before: PendingQuestion,
    answer: Vec<String>,
    now: int,
)
    requires
        answers(row, before, answer, now),
    ensures
        row.answer == Some(answer) && row.resolved_at is Some,
        row.resolved_at->0@ == time::utc_text(now, Pattern::Zulu.notation()),
        row.question_id == before.question_id && row.agent_id == before.agent_id,
        row.channel_id == before.channel_id && row.question == before.question && row.options == before.options,
        row.multi_select == before.multi_select && row.message_ref == before.message_ref,
        row.created_at == before.created_at,
{
}

/// The cutoff lies as many days back as a question lives, and a longer life
/// never moves it forward.
pub proof fn law_the_cutoff_lies_days_back(ttl_days: int, longer: int, now: int)
    requires
        ttl_days <= longer,
    ensures
        cutoff_of(ttl_days, now) matches Some(at) ==> at + ttl_days * time::DAY == now && at <= now,
        ttl_days < 0 ==> cutoff_of(ttl_days, now) is None,
        ttl_days >= 0 && time::in_calendar(now - ttl_days * time::DAY) ==> cutoff_of(ttl_days, now) is Some,
        cutoff_of(ttl_days, now) is Some && cutoff_of(longer, now) is Some ==> cutoff_of(longer, now)->0 <= cutoff_of(
            ttl_days,
            now,
        )->0,
{
}

/// An answered question expires by its answer and an open one by its creation:
/// before the cutoff, and not on it.
pub proof fn law_a_question_expires_by_its_last_word(row: PendingQuestion, cutoff: int)
    ensures
        row.resolved_at is Some ==> (expired(row, cutoff) <==> text::precedes(
            row.resolved_at->0@,
            time::utc_text(cutoff, Pattern::Zulu.notation()),
        )),
        row.resolved_at is None ==> (expired(row, cutoff) <==> text::precedes(
            row.created_at@,
            time::utc_text(cutoff, Pattern::Second.notation()),
        )),
{
}

} // verus!
