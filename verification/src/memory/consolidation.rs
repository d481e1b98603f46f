//! Write-time consolidation: advisory near-duplicate detection and
//! per-partition debt, executed atomically by the branch.
//!
//! The save always lands: consolidation is advisory and never blocks a write.
//! After a memory is persisted, `check_save` reports two signals on the output
//! the branch sees:
//!
//! - **near-duplicates**: existing memories closely matching the new one
//! - **per-partition over-cap debt**: the partition (memory type) has grown
//!   past its cap, so the render's per-type budgets are showing a thinning
//!   slice of a bloated store
//!
//! The branch responds with one atomic batch per partition (`execute_batch`):
//! merge each pair into a single survivor with the branch's composed content,
//! re-embed the survivor, delete the absorbed memory, and clear the
//! partition's debt.
use vstd::prelude::*;
use crate::llm::history::copy_opt;
use crate::memory;
use crate::memory::MemoryType;
use crate::table::{Keyed, Table};
use crate::text;

verus! {

broadcast use vstd::seq::group_seq_axioms;

/// How many characters of a memory a preview shows.
pub const PREVIEW_CHARS: usize = 140;

/// Unresolved consolidation batches of a partition.
#[derive(Debug)]
pub struct Debt {
    pub partition: String,
    pub count: u64,
}

impl Keyed for Debt {
    open spec fn keyed_by(&self) -> Seq<char> {
        self.partition@
    }

    fn key(&self) -> (key: &str) {
        self.partition.as_str()
    }
}

/// Shared per-agent consolidation state: per-partition debt counters.
#[derive(Debug)]
pub struct ConsolidationState {
    pub debts: Table<Debt>,
}

impl ConsolidationState {
    /// Whether no partition is counted twice.
    pub open spec fn well_formed(self) -> bool {
        self.debts.well_formed()
    }

    /// The unresolved debt of a partition.
    pub open spec fn owed(self, partition: Seq<char>) -> u64 {
        if self.debts@.contains_key(partition) {
            self.debts@[partition].count
        } else {
            0
        }
    }

    /// A state without debt.
    pub fn new() -> (state: Self)
        ensures
            state.well_formed(),
            forall|partition: Seq<char>| state.owed(partition) == 0,
    {
        ConsolidationState { debts: Table::new() }
    }

    /// Records one more over-cap save for a partition. Returns the new debt.
    pub fn record_debt(&mut self, partition: &str) -> (count: u64)
        requires
            old(self).well_formed(),
            old(self).owed(partition@) < u64::MAX,
        ensures
            final(self).well_formed(),
            count == old(self).owed(partition@) + 1,
            final(self).owed(partition@) == count,
            forall|other: Seq<char>| other != partition@ ==> final(self).owed(other) == old(self).owed(other),
    {
        let count: u64 = self.debt(partition) + 1;
        self.debts.put(Debt { partition: partition.to_owned(), count });
        count
    }

    /// Current unresolved debt for a partition.
    pub fn debt(&self, partition: &str) -> (count: u64)
        requires
            self.well_formed(),
        ensures
            count == self.owed(partition@),
    {
        match self.debts.get(partition) {
            Some(debt) => debt.count,
            None => 0,
        }
    }

    /// Clears the debt for a partition after a successful consolidation batch.
    pub fn clear_debt(&mut self, partition: &str)
        requires
            old(self).well_formed(),
        ensures
            final(self).well_formed(),
            final(self).owed(partition@) == 0,
            forall|other: Seq<char>| other != partition@ ==> final(self).owed(other) == old(self).owed(other),
    {
        let _ = self.debts.remove(partition);
    }
}

/// A memory that matches a new one, as the vector index reports it.
#[derive(Debug)]
pub struct SimilarMemory {
    pub memory_id: String,
    /// The bits of the similarity, carried through.
    pub similarity: u32,
    /// The memory's content, where it can be loaded.
    pub content: Option<String>,
}

/// A closely matching existing memory, surfaced on a save.
#[derive(Debug)]
pub struct NearDuplicate {
    pub memory_id: String,
    /// The bits of the similarity against the newly saved memory.
    pub similarity: u32,
    /// First non-empty line of the existing memory's content.
    pub content: String,
}

/// Advisory returned from a save, rendered on the tool output for the branch.
#[derive(Debug)]
pub struct ConsolidationAdvice {
    /// Partition (memory type label) the advice applies to.
    pub partition: String,
    /// Total memories in the partition after this save.
    pub partition_count: i64,
    /// Per-partition cap from config.
    pub partition_cap: usize,
    /// True when the partition is over its cap.
    pub over_cap: bool,
    /// Unresolved consolidation batches queued for this partition.
    pub debt: u64,
    /// Closely matching existing memories.
    pub near_duplicates: Vec<NearDuplicate>,
}

/// One merge operation of a consolidation batch: absorb `absorbed_id` into
/// `survivor_id`, replacing the survivor's content with the branch's composed
/// `merged_content`.
#[derive(Debug)]
pub struct ConsolidateOp {
    pub survivor_id: String,
    pub absorbed_id: String,
    pub merged_content: String,
}

/// Outcome of a consolidation batch.
#[derive(Debug)]
pub struct ConsolidationReport {
    pub partition: String,
    /// Merges applied in the batch.
    pub consolidated: usize,
    /// Memories remaining in the partition after the batch.
    pub remaining_count: i64,
}

/// The preview of a memory: its first line that is not blank, capped.
pub open spec fn preview(content: Seq<char>) -> Seq<char> {
    let line = memory::first_full_line(text::lines_of(content));
    if line.len() <= PREVIEW_CHARS {
        line
    } else {
        line.take(PREVIEW_CHARS as int)
    }
}

/// First non-empty line, capped for previews.
pub fn first_line(content: &str) -> (line: String)
    ensures
        line@ == preview(content@),
{
    let line = memory::first_text_line(content);
    if line.as_str().unicode_len() <= PREVIEW_CHARS {
        return line;
    }
    let capped = line.as_str().substring_char(0, PREVIEW_CHARS).to_owned();
    assert(capped@ =~= line@.take(PREVIEW_CHARS as int));
    capped
}

/// Whether a near-duplicate is the one that the index reports.
pub open spec fn surfaces(duplicate: NearDuplicate, similar: SimilarMemory) -> bool {
    &&& duplicate.memory_id == similar.memory_id
    &&& duplicate.similarity == similar.similarity
    &&& duplicate.content@ == (match similar.content {
        Some(content) => preview(content@),
        None => Seq::empty(),
    })
}

/// Runs the post-save consolidation check. Advisory: returns `None` when
/// nothing is actionable (no near-duplicates, partition under cap).
pub fn check_save(
    state: &mut ConsolidationState,
    memory_type: MemoryType,
    partition_count: i64,
    cap: usize,
    similar: Vec<SimilarMemory>,
) -> (advice: Option<ConsolidationAdvice>)
    requires
        old(state).well_formed(),
        cap <= i64::MAX,
        old(state).owed(memory_type.name()) < u64::MAX,
    ensures
        final(state).well_formed(),
        forall|other: Seq<char>|
            other != memory_type.name() ==> final(state).owed(other) == old(state).owed(other),
        final(state).owed(memory_type.name()) == old(state).owed(memory_type.name()) + (if partition_count > cap {
            1int
        } else {
            0int
        }),
        match advice {
            None => partition_count <= cap && similar@.len() == 0,
            Some(advice) => {
                &&& partition_count > cap || similar@.len() > 0
                &&& advice.partition@ == memory_type.name()
                &&& advice.partition_count == partition_count
                &&& advice.partition_cap == cap
                &&& advice.over_cap == (partition_count > cap)
                &&& advice.debt == final(state).owed(memory_type.name())
                &&& advice.near_duplicates@.len() == similar@.len()
                &&& forall|k: int|
                    0 <= k < similar@.len() ==> surfaces(#[trigger] advice.near_duplicates@[k], similar@[k])
            },
        },
{
    let partition = memory_type.label();
    let over_cap = partition_count > cap as i64;
    let debt: u64 = if over_cap {
        state.record_debt(partition)
    } else {
        state.debt(partition)
    };
    let ghost all = similar@;
    let mut rest = similar;
    let mut near_duplicates: Vec<NearDuplicate> = Vec::new();
    while rest.len() > 0
        invariant
            near_duplicates@.len() <= all.len(),
            rest@ == all.subrange(near_duplicates@.len() as int, all.len() as int),
            forall|k: int| 0 <= k < near_duplicates@.len() ==> surfaces(#[trigger] near_duplicates@[k], all[k]),
        decreases rest@.len(),
    {
        let ghost n = near_duplicates@.len() as int;
        let next = rest.remove(0);
        assert(next == all[n]);
        assert(rest@ =~= all.subrange(n + 1, all.len() as int));
        let content = match &next.content {
            Some(content) => first_line(content.as_str()),
            None => String::new(),
        };
        near_duplicates.push(
            NearDuplicate { memory_id: next.memory_id, similarity: next.similarity, content },
        );
    }
    if !over_cap && near_duplicates.len() == 0 {
        return None;
    }
    Some(
        ConsolidationAdvice {
            partition: partition.to_owned(),
            partition_count,
            partition_cap: cap,
            over_cap,
            debt,
            near_duplicates,
        },
    )
}

// ---------------------------------------------------------------------------
// Batches
// ---------------------------------------------------------------------------

/// A memory, as far as a merge reads or writes it.
#[derive(Debug)]
pub struct MemoryRow {
    pub id: String,
    pub content: String,
    /// Grows with the importance of the memory.
    pub importance: u32,
    pub channel_id: Option<String>,
    pub updated_at: i64,
    /// The chronicle checkpoint whose span a superseded claim came from.
    pub supersedes_checkpoint_id: Option<String>,
}

/// What a memory is.
pub struct RowModel {
    pub id: Seq<char>,
    pub content: Seq<char>,
    pub importance: u32,
    pub channel_id: Option<Seq<char>>,
    pub updated_at: i64,
    pub supersedes_checkpoint_id: Option<Seq<char>>,
}

impl View for MemoryRow {
    type V = RowModel;

    open spec fn view(&self) -> RowModel {
        RowModel {
            id: self.id@,
            content: self.content@,
            importance: self.importance,
            channel_id: text::opt_text(self.channel_id),
            updated_at: self.updated_at,
            supersedes_checkpoint_id: text::opt_text(self.supersedes_checkpoint_id),
        }
    }
}

impl Keyed for MemoryRow {
    open spec fn keyed_by(&self) -> Seq<char> {
        self.id@
    }

    fn key(&self) -> (key: &str) {
        self.id.as_str()
    }
}

/// What the store and the embedding model report of one merge.
#[derive(Debug)]
pub struct OpOutcome {
    /// When the merge is made.
    pub now: i64,
    /// The checkpoint whose span covers the absorbed memory, where one is
    /// found.
    pub covering_checkpoint: Option<String>,
    /// Whether the rows were merged.
    pub merged: bool,
    /// Whether the survivor was embedded anew.
    pub embedded: bool,
    /// Whether the new embedding was stored.
    pub stored: bool,
    /// Whether the absorbed memory was deleted.
    pub deleted: bool,
}

/// Why a batch stopped.
#[derive(Debug)]
pub enum BatchError {
    /// The survivor is missing.
    NoSurvivor(String),
    /// The memory to be absorbed is missing.
    NoTarget(String),
    /// The composed content is blank.
    EmptyContent(String),
    /// The rows could not be merged: absorbed, survivor.
    Merge(String, String),
    /// The survivor could not be embedded anew.
    Embed(String),
    /// The new embedding could not be stored.
    Store(String),
}

/// What a failure is.
pub enum BatchFailure {
    NoSurvivor(Seq<char>),
    NoTarget(Seq<char>),
    EmptyContent(Seq<char>),
    Merge(Seq<char>, Seq<char>),
    Embed(Seq<char>),
    Store(Seq<char>),
}

impl View for BatchError {
    type V = BatchFailure;

    open spec fn view(&self) -> BatchFailure {
        match self {
            BatchError::NoSurvivor(id) => BatchFailure::NoSurvivor(id@),
            BatchError::NoTarget(id) => BatchFailure::NoTarget(id@),
            BatchError::EmptyContent(id) => BatchFailure::EmptyContent(id@),
            BatchError::Merge(absorbed, survivor) => BatchFailure::Merge(absorbed@, survivor@),
            BatchError::Embed(id) => BatchFailure::Embed(id@),
            BatchError::Store(id) => BatchFailure::Store(id@),
        }
    }
}

impl BatchFailure {
    /// How a failure reads.
    pub open spec fn reads(self) -> Seq<char> {
        match self {
            BatchFailure::NoSurvivor(id) => "consolidation survivor "@ + id + " missing"@,
            BatchFailure::NoTarget(id) => "consolidation target "@ + id + " missing"@,
            BatchFailure::EmptyContent(id) => "consolidation merged_content is empty for "@ + id,
            BatchFailure::Merge(absorbed, survivor) => "failed to merge "@ + absorbed + " into "@ + survivor,
            BatchFailure::Embed(id) => "failed to re-embed survivor "@ + id,
            BatchFailure::Store(id) => "failed to store re-embedding for "@ + id,
        }
    }
}

impl BatchError {
    /// How a failure reads.
    pub fn message(&self) -> (message: String)
        ensures
            message@ == self@.reads(),
    {
        match self {
            BatchError::NoSurvivor(id) => {
                let mut message = "consolidation survivor ".to_owned();
                message.push_str(id.as_str());
                message.push_str(" missing");
                message
            },
            BatchError::NoTarget(id) => {
                let mut message = "consolidation target ".to_owned();
                message.push_str(id.as_str());
                message.push_str(" missing");
                message
            },
            BatchError::EmptyContent(id) => {
                let mut message = "consolidation merged_content is empty for ".to_owned();
                message.push_str(id.as_str());
                message
            },
            BatchError::Merge(absorbed, survivor) => {
                let mut message = "failed to merge ".to_owned();
                message.push_str(absorbed.as_str());
                message.push_str(" into ");
                message.push_str(survivor.as_str());
                message
            },
            BatchError::Embed(id) => {
                let mut message = "failed to re-embed survivor ".to_owned();
                message.push_str(id.as_str());
                message
            },
            BatchError::Store(id) => {
                let mut message = "failed to store re-embedding for ".to_owned();
                message.push_str(id.as_str());
                message
            },
        }
    }
}

/// What the memories of a table are.
pub open spec fn row_models(rows: Map<Seq<char>, MemoryRow>) -> Map<Seq<char>, RowModel> {
    rows.map_values(|row: MemoryRow| row@)
}

/// The survivor of a merge: the composed content, the greater importance, and
/// where the superseded claim originated, unless that is recorded already.
pub open spec fn survivor_of(
    survivor: RowModel,
    absorbed: RowModel,
    content: Seq<char>,
    checkpoint: Option<Seq<char>>,
    now: i64,
) -> RowModel {
    RowModel {
        content,
        importance: if survivor.importance >= absorbed.importance {
            survivor.importance
        } else {
            absorbed.importance
        },
        updated_at: now,
        supersedes_checkpoint_id: if survivor.supersedes_checkpoint_id is None && absorbed.channel_id is Some {
            checkpoint
        } else {
            survivor.supersedes_checkpoint_id
        },
        ..survivor
    }
}

/// The memories after one merge, and what stopped it.
pub open spec fn after_op(
    rows: Map<Seq<char>, RowModel>,
    op: ConsolidateOp,
    outcome: OpOutcome,
) -> (Map<Seq<char>, RowModel>, Option<BatchFailure>) {
    let content = text::trimmed(op.merged_content@);
    if !rows.contains_key(op.survivor_id@) {
        (rows, Some(BatchFailure::NoSurvivor(op.survivor_id@)))
    } else if !rows.contains_key(op.absorbed_id@) {
        (rows, Some(BatchFailure::NoTarget(op.absorbed_id@)))
    } else if content.len() == 0 {
        (rows, Some(BatchFailure::EmptyContent(op.survivor_id@)))
    } else if !outcome.merged {
        (rows, Some(BatchFailure::Merge(op.absorbed_id@, op.survivor_id@)))
    } else {
        let merged = rows.insert(
            op.survivor_id@,
            survivor_of(
                rows[op.survivor_id@],
                rows[op.absorbed_id@],
                content,
                text::opt_text(outcome.covering_checkpoint),
                outcome.now,
            ),
        );
        if !outcome.embedded {
            (merged, Some(BatchFailure::Embed(op.survivor_id@)))
        } else if !outcome.stored {
            (merged, Some(BatchFailure::Store(op.survivor_id@)))
        } else if outcome.deleted {
            (merged.remove(op.absorbed_id@), None)
        } else {
            (merged, None)
        }
    }
}

/// The memories after the first merges of a batch, and what stopped it. The
/// remaining merges are aborted on any failure.
pub open spec fn after_ops(
    rows: Map<Seq<char>, RowModel>,
    batch: Seq<ConsolidateOp>,
    outcomes: Seq<OpOutcome>,
    n: int,
) -> (Map<Seq<char>, RowModel>, Option<BatchFailure>)
    decreases n,
{
    if n <= 0 {
        (rows, None)
    } else {
        let before = after_ops(rows, batch, outcomes, n - 1);
        match before.1 {
            Some(failure) => before,
            None => after_op(before.0, batch[n - 1], outcomes[n - 1]),
        }
    }
}

proof fn failure_stays(
    rows: Map<Seq<char>, RowModel>,
    batch: Seq<ConsolidateOp>,
    outcomes: Seq<OpOutcome>,
    k: int,
    n: int,
)
    requires
        0 <= k <= n,
        after_ops(rows, batch, outcomes, k).1 is Some,
    ensures
        after_ops(rows, batch, outcomes, n) == after_ops(rows, batch, outcomes, k),
    decreases n,
{
    if k < n {
        failure_stays(rows, batch, outcomes, k, n - 1);
    }
}

/// What keeps a merge from being tried, if anything.
pub open spec fn unmergeable(survivor: Option<RowModel>, absorbed: Option<RowModel>, op: ConsolidateOp) -> Option<
    BatchFailure,
> {
    if survivor is None {
        Some(BatchFailure::NoSurvivor(op.survivor_id@))
    } else if absorbed is None {
        Some(BatchFailure::NoTarget(op.absorbed_id@))
    } else if text::trimmed(op.merged_content@).len() == 0 {
        Some(BatchFailure::EmptyContent(op.survivor_id@))
    } else {
        None
    }
}

/// What a memory is, where there is one.
pub open spec fn opt_row(row: Option<&MemoryRow>) -> Option<RowModel> {
    match row {
        Some(row) => Some(row@),
        None => None,
    }
}

/// The row that a merge writes: the survivor with the composed content.
/// `checkpoint` is the checkpoint whose span covers the absorbed memory, where
/// one is found.
pub fn merge_rows(
    survivor: Option<&MemoryRow>,
    absorbed: Option<&MemoryRow>,
    op: &ConsolidateOp,
    checkpoint: &Option<String>,
    now: i64,
) -> (merged: Result<MemoryRow, BatchError>)
    ensures
        match merged {
            Err(error) => unmergeable(opt_row(survivor), opt_row(absorbed), *op) == Some(error@),
            Ok(row) => {
                &&& unmergeable(opt_row(survivor), opt_row(absorbed), *op) is None
                &&& row@ == survivor_of(
                    survivor->0@,
                    absorbed->0@,
                    text::trimmed(op.merged_content@),
                    text::opt_text(*checkpoint),
                    now,
                )
            },
        },
{
    let survivor = match survivor {
        Some(row) => row,
        None => {
            return Err(BatchError::NoSurvivor(op.survivor_id.clone()));
        },
    };
    let absorbed = match absorbed {
        Some(row) => row,
        None => {
            return Err(BatchError::NoTarget(op.absorbed_id.clone()));
        },
    };
    let content = text::trim(op.merged_content.as_str());
    if content.as_str().is_empty() {
        return Err(BatchError::EmptyContent(op.survivor_id.clone()));
    }
    let importance: u32 = if survivor.importance >= absorbed.importance {
        survivor.importance
    } else {
        absorbed.importance
    };
    let supersedes = if survivor.supersedes_checkpoint_id.is_none() && absorbed.channel_id.is_some() {
        copy_opt(checkpoint)
    } else {
        copy_opt(&survivor.supersedes_checkpoint_id)
    };
    Ok(
        MemoryRow {
            id: survivor.id.clone(),
            content,
            importance,
            channel_id: copy_opt(&survivor.channel_id),
            updated_at: now,
            supersedes_checkpoint_id: supersedes,
        },
    )
}

/// Makes one merge.
fn apply_op(rows: &mut Table<MemoryRow>, op: &ConsolidateOp, outcome: &OpOutcome) -> (stopped: Option<BatchError>)
    requires
        old(rows).well_formed(),
    ensures
        final(rows).well_formed(),
        (
            row_models(final(rows)@),
            match stopped {
                Some(error) => Some(error@),
                None => None,
            },
        ) == after_op(row_models(old(rows)@), *op, *outcome),
{
    let ghost before = rows@;
    let updated = match merge_rows(
        rows.get(op.survivor_id.as_str()),
        rows.get(op.absorbed_id.as_str()),
        op,
        &outcome.covering_checkpoint,
        outcome.now,
    ) {
        Ok(row) => row,
        Err(error) => {
            return Some(error);
        },
    };
    proof {
        keyed_rows(*rows, op.survivor_id@);
    }
    if !outcome.merged {
        return Some(BatchError::Merge(op.absorbed_id.clone(), op.survivor_id.clone()));
    }
    rows.put(updated);
    let ghost merged = rows@;
    assert(row_models(merged) =~= row_models(before).insert(op.survivor_id@, updated@));
    if !outcome.embedded {
        return Some(BatchError::Embed(op.survivor_id.clone()));
    }
    if !outcome.stored {
        return Some(BatchError::Store(op.survivor_id.clone()));
    }
    if outcome.deleted {
        let _ = rows.remove(op.absorbed_id.as_str());
        assert(row_models(rows@) =~= row_models(merged).remove(op.absorbed_id@));
    }
    None
}

proof fn keyed_rows(rows: Table<MemoryRow>, id: Seq<char>)
    requires
        rows.well_formed(),
        rows@.contains_key(id),
    ensures
        rows@[id].id@ == id,
{
    let at = choose|at: int| crate::table::at_key(rows.rows@, id, at);
    assert(crate::table::at_key(rows.rows@, id, at));
}

/// Executes a consolidation batch for one partition. Each merge is atomic; on
/// any failure the remaining merges are aborted and the error propagates.
/// `remaining` is how many memories the partition is then found to hold; a
/// partition that names no memory type holds none.
pub fn execute_batch(
    state: &mut ConsolidationState,
    rows: &mut Table<MemoryRow>,
    partition: &str,
    batch: &Vec<ConsolidateOp>,
    outcomes: &Vec<OpOutcome>,
    remaining: i64,
) -> (report: Result<ConsolidationReport, BatchError>)
    requires
        old(state).well_formed(),
        old(rows).well_formed(),
        outcomes@.len() == batch@.len(),
    ensures
        final(state).well_formed(),
        final(rows).well_formed(),
        row_models(final(rows)@) == after_ops(row_models(old(rows)@), batch@, outcomes@, batch@.len() as int).0,
        match report {
            Ok(report) => {
                &&& after_ops(row_models(old(rows)@), batch@, outcomes@, batch@.len() as int).1 is None
                &&& report.partition@ == partition@
                &&& report.consolidated == batch@.len()
                &&& report.remaining_count == (if MemoryType::labelled(partition@) is Some {
                    remaining as int
                } else {
                    0
                })
                &&& final(state).owed(partition@) == 0
                &&& forall|other: Seq<char>|
                    other != partition@ ==> final(state).owed(other) == old(state).owed(other)
            },
            Err(error) => {
                &&& after_ops(row_models(old(rows)@), batch@, outcomes@, batch@.len() as int).1 == Some(error@)
                &&& *final(state) == *old(state)
            },
        },
{
    let ghost before = row_models(rows@);
    let mut k: usize = 0;
    while k < batch.len()
        invariant
            k <= batch@.len(),
            outcomes@.len() == batch@.len(),
            rows.well_formed(),
            before == row_models(old(rows)@),
            *state == *old(state),
            state.well_formed(),
            after_ops(before, batch@, outcomes@, k as int) == (row_models(rows@), None::<BatchFailure>),
        decreases batch@.len() - k,
    {
        if let Some(error) = apply_op(rows, &batch[k], &outcomes[k]) {
            proof {
                failure_stays(before, batch@, outcomes@, k + 1, batch@.len() as int);
            }
            return Err(error);
        }
        k = k + 1;
    }
    state.clear_debt(partition);
    let remaining_count: i64 = match MemoryType::from_label(partition) {
        Some(_) => remaining,
        None => 0,
    };
    Ok(ConsolidationReport { partition: partition.to_owned(), consolidated: batch.len(), remaining_count })
}

// ---------------------------------------------------------------------------
// Laws
// ---------------------------------------------------------------------------

/// A merge that stops keeps both memories: neither is lost before the survivor
/// carries the merged content and its embedding.
pub proof fn law_a_stopped_merge_loses_nothing(
    rows: Map<Seq<char>, RowModel>,
    op: ConsolidateOp,
    outcome: OpOutcome,
    id: Seq<char>,
)
    requires
        after_op(rows, op, outcome).1 is Some,
        rows.contains_key(id),
    ensures
        after_op(rows, op, outcome).0.contains_key(id),
        id != op.survivor_id@ ==> after_op(rows, op, outcome).0[id] == rows[id],
{
}

/// A merge leaves every memory but its two alone.
pub proof fn law_a_merge_touches_its_pair_alone(
    rows: Map<Seq<char>, RowModel>,
    op: ConsolidateOp,
    outcome: OpOutcome,
    id: Seq<char>,
)
    requires
        id != op.survivor_id@,
        id != op.absorbed_id@,
    ensures
        after_op(rows, op, outcome).0.contains_key(id) == rows.contains_key(id),
        rows.contains_key(id) ==> after_op(rows, op, outcome).0[id] == rows[id],
{
}

/// The survivor of a merge is as important as the more important of the two
/// memories was, and holds the composed content.
pub proof fn law_a_survivor_keeps_the_greater_importance(
    rows: Map<Seq<char>, RowModel>,
    op: ConsolidateOp,
    outcome: OpOutcome,
)
    requires
        after_op(rows, op, outcome).1 is None,
        op.survivor_id@ != op.absorbed_id@,
    ensures
        after_op(rows, op, outcome).0[op.survivor_id@].importance >= rows[op.survivor_id@].importance,
        after_op(rows, op, outcome).0[op.survivor_id@].importance >= rows[op.absorbed_id@].importance,
        after_op(rows, op, outcome).0[op.survivor_id@].importance == rows[op.survivor_id@].importance || after_op(
            rows,
            op,
            outcome,
        ).0[op.survivor_id@].importance == rows[op.absorbed_id@].importance,
        after_op(rows, op, outcome).0[op.survivor_id@].content == text::trimmed(op.merged_content@),
{
}

/// A merge is finished on exactly these terms: both memories are there, there
/// is composed content, and the rows, the embedding and the index were written.
/// Whatever is missing first is what stops it.
pub proof fn law_a_merge_is_finished_or_says_why(
    rows: Map<Seq<char>, RowModel>,
    op: ConsolidateOp,
    outcome: OpOutcome,
)
    ensures
        after_op(rows, op, outcome).1 is None <==> rows.contains_key(op.survivor_id@) && rows.contains_key(
            op.absorbed_id@,
        ) && text::trimmed(op.merged_content@).len() > 0 && outcome.merged && outcome.embedded && outcome.stored,
        !rows.contains_key(op.survivor_id@) <==> after_op(rows, op, outcome).1 is Some && after_op(
            rows,
            op,
            outcome,
        ).1->0 == BatchFailure::NoSurvivor(op.survivor_id@),
        rows.contains_key(op.survivor_id@) && !rows.contains_key(op.absorbed_id@) ==> after_op(rows, op, outcome).1
            == Some(BatchFailure::NoTarget(op.absorbed_id@)),
        rows.contains_key(op.survivor_id@) && rows.contains_key(op.absorbed_id@) && text::trimmed(
            op.merged_content@,
        ).len() == 0 ==> after_op(rows, op, outcome).1 == Some(BatchFailure::EmptyContent(op.survivor_id@)),
        after_op(rows, op, outcome).1 matches Some(BatchFailure::Merge(absorbed, survivor)) ==> absorbed
            == op.absorbed_id@ && survivor == op.survivor_id@ && !outcome.merged,
        after_op(rows, op, outcome).1 matches Some(BatchFailure::Embed(id)) ==> id == op.survivor_id@
            && outcome.merged && !outcome.embedded,
        after_op(rows, op, outcome).1 matches Some(BatchFailure::Store(id)) ==> id == op.survivor_id@
            && outcome.embedded && !outcome.stored,
{
}

/// Nothing is written before the rows are merged, and nothing is deleted
/// before the survivor is embedded and indexed anew.
pub proof fn law_nothing_is_deleted_before_the_survivor_is_safe(
    rows: Map<Seq<char>, RowModel>,
    op: ConsolidateOp,
    outcome: OpOutcome,
    id: Seq<char>,
)
    ensures
        !outcome.merged ==> after_op(rows, op, outcome).0 == rows,
        after_op(rows, op, outcome).0.contains_key(id) ==> rows.contains_key(id),
        rows.contains_key(id) && !after_op(rows, op, outcome).0.contains_key(id) ==> id == op.absorbed_id@
            && outcome.merged && outcome.embedded && outcome.stored && outcome.deleted && after_op(
            rows,
            op,
            outcome,
        ).1 is None,
        after_op(rows, op, outcome).1 is None && outcome.deleted ==> !after_op(rows, op, outcome).0.contains_key(
            op.absorbed_id@,
        ),
        after_op(rows, op, outcome).1 is None && !outcome.deleted && op.absorbed_id@ != op.survivor_id@
            ==> after_op(rows, op, outcome).0[op.absorbed_id@] == rows[op.absorbed_id@],
{
}

/// What the survivor takes over: the importance of one of the two, the time of
/// the merge, and nothing of who it is. Where a superseded claim came from is
/// recorded once: what the survivor already says stays, and without a channel
/// the absorbed memory says nothing of it.
pub proof fn law_a_survivor_stays_who_it_is(
    survivor: RowModel,
    absorbed: RowModel,
    content: Seq<char>,
    checkpoint: Option<Seq<char>>,
    now: i64,
)
    ensures
        ({
            let merged = survivor_of(survivor, absorbed, content, checkpoint, now);
            &&& merged.importance == survivor.importance || merged.importance == absorbed.importance
            &&& merged.importance >= survivor.importance
            &&& merged.importance >= absorbed.importance
            &&& merged.id == survivor.id
            &&& merged.channel_id == survivor.channel_id
            &&& merged.content == content
            &&& merged.updated_at == now
            &&& survivor.supersedes_checkpoint_id is Some ==> merged.supersedes_checkpoint_id
                == survivor.supersedes_checkpoint_id
            &&& survivor.supersedes_checkpoint_id is None && absorbed.channel_id is Some
                ==> merged.supersedes_checkpoint_id == checkpoint
            &&& survivor.supersedes_checkpoint_id is None && absorbed.channel_id is None
                ==> merged.supersedes_checkpoint_id is None
        }),
{
}

/// Importance does not depend on which of the two memories survives.
pub proof fn law_importance_is_symmetric(
    one: RowModel,
    other: RowModel,
    content: Seq<char>,
    checkpoint: Option<Seq<char>>,
    now: i64,
)
    ensures
        survivor_of(one, other, content, checkpoint, now).importance == survivor_of(
            other,
            one,
            content,
            checkpoint,
            now,
        ).importance,
{
}

/// A batch makes its merges in turn, each on what the ones before it left, and
/// the first that stops is the last: what comes behind it changes nothing.
pub proof fn law_a_batch_stops_at_its_first_failure(
    rows: Map<Seq<char>, RowModel>,
    batch: Seq<ConsolidateOp>,
    outcomes: Seq<OpOutcome>,
    k: int,
    n: int,
)
    requires
        0 <= k < n,
    ensures
        after_ops(rows, batch, outcomes, 0) == (rows, None::<BatchFailure>),
        after_ops(rows, batch, outcomes, k).1 is None ==> after_ops(rows, batch, outcomes, k + 1) == after_op(
            after_ops(rows, batch, outcomes, k).0,
            batch[k],
            outcomes[k],
        ),
        after_ops(rows, batch, outcomes, k).1 is Some ==> after_ops(rows, batch, outcomes, n) == after_ops(
            rows,
            batch,
            outcomes,
            k,
        ),
{
    if after_ops(rows, batch, outcomes, k).1 is Some {
        failure_stays(rows, batch, outcomes, k, n);
    }
}

/// Whatever a batch does, a memory that none of its merges names stays as it
/// was, and no memory appears.
pub proof fn law_a_batch_spares_the_others(
    rows: Map<Seq<char>, RowModel>,
    batch: Seq<ConsolidateOp>,
    outcomes: Seq<OpOutcome>,
    n: int,
    id: Seq<char>,
)
    requires
        0 <= n <= batch.len(),
    ensures
        after_ops(rows, batch, outcomes, n).0.contains_key(id) ==> rows.contains_key(id),
        (forall|k: int|
            0 <= k < n ==> (#[trigger] batch[k]).survivor_id@ != id && batch[k].absorbed_id@ != id) ==> after_ops(
            rows,
            batch,
            outcomes,
            n,
        ).0.contains_key(id) == rows.contains_key(id) && (rows.contains_key(id) ==> after_ops(
            rows,
            batch,
            outcomes,
            n,
        ).0[id] == rows[id]),
        (forall|k: int| 0 <= k < n ==> (#[trigger] batch[k]).absorbed_id@ != id) && rows.contains_key(id)
            ==> after_ops(rows, batch, outcomes, n).0.contains_key(id),
    decreases n,
{
    if n > 0 {
        law_a_batch_spares_the_others(rows, batch, outcomes, n - 1, id);
        let before = after_ops(rows, batch, outcomes, n - 1);
        law_nothing_is_deleted_before_the_survivor_is_safe(before.0, batch[n - 1], outcomes[n - 1], id);
        assert(batch[n - 1] == batch[n - 1]);
    }
}

/// A preview is the beginning of the first line that says something, and the
/// whole of it where it is short enough.
pub proof fn law_previews_begin_their_memory(content: Seq<char>)
    ensures
        preview(content).len() <= PREVIEW_CHARS,
        preview(content).is_prefix_of(memory::first_full_line(text::lines_of(content))),
        preview(content).len() == PREVIEW_CHARS || preview(content) == memory::first_full_line(
            text::lines_of(content),
        ),
{
    let line = memory::first_full_line(text::lines_of(content));
    assert(line.take(line.len() as int) =~= line);
}

/// A pair is merged exactly where both memories are there and there is something
/// to keep, and what is missing is told by name, the survivor first.
pub proof fn law_an_impossible_merge_says_what_is_missing(
    survivor: Option<RowModel>,
    absorbed: Option<RowModel>,
    op: ConsolidateOp,
)
    ensures
        unmergeable(survivor, absorbed, op) is None <==> survivor is Some && absorbed is Some && text::trimmed(
            op.merged_content@,
        ).len() > 0,
        survivor is None ==> unmergeable(survivor, absorbed, op) == Some(BatchFailure::NoSurvivor(op.survivor_id@)),
        survivor is Some && absorbed is None ==> unmergeable(survivor, absorbed, op) == Some(
            BatchFailure::NoTarget(op.absorbed_id@),
        ),
        survivor is Some && absorbed is Some && text::trimmed(op.merged_content@).len() == 0 ==> unmergeable(
            survivor,
            absorbed,
            op,
        ) == Some(BatchFailure::EmptyContent(op.survivor_id@)),
{
}

/// A near duplicate is shown by the memory it is, with its likeness and the
/// beginning of its content.
pub proof fn law_a_near_duplicate_is_shown_as_it_is(duplicate: NearDuplicate, similar: SimilarMemory)
    requires
        surfaces(duplicate, similar),
    ensures
        duplicate.memory_id == similar.memory_id,
        duplicate.similarity == similar.similarity,
        similar.content is None ==> duplicate.content@.len() == 0,
        similar.content is Some ==> duplicate.content@ == preview(similar.content->0@),
{
}

} // verus!
