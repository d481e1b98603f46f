//! Deterministic, LLM-free render of the memory store for the channel's
//! knowledge-context slot.
//!
//! The render is a pure function of the store, so identical store state
//! produces identical bytes: a memory write is the only thing that changes
//! the block.
use vstd::prelude::*;
use crate::memory;
use crate::memory::MemoryType;
use crate::order;
use crate::order::Ranked;
use crate::tasks::{Task, TaskStatus, TaskSubtask};
use crate::text;
use crate::time;
use crate::time::Pattern;

verus! {

broadcast use vstd::seq::group_seq_axioms;

/// How many typed sections there are.
pub const SECTION_COUNT: usize = 5;

/// The word budget the entry caps are sized for. A configured budget scales
/// each cap linearly against this baseline, so raising the budget deepens the
/// render.
pub const BASELINE_BUDGET_WORDS: usize = 500;

/// How many tasks of one status are listed at most.
pub const TASKS_PER_STATUS: usize = 20;

/// A typed section, in render order. Facts first, the grounding section, then
/// the taxonomy order the `memory_save` tool teaches. Identity is excluded
/// (identity files own that layer), events live on the chronicle, concrete
/// todos live on the task board, and human anchors surface only for humans
/// present, never in the global render.
#[derive(Debug, Clone, Copy, PartialEq, Eq, Structural)]
pub enum Section {
    Facts,
    Decisions,
    Preferences,
    Goals,
    Observations,
}

impl Section {
    /// The sections in render order.
    pub open spec fn at(k: int) -> Section {
        if k == 0 {
            Section::Facts
        } else if k == 1 {
            Section::Decisions
        } else if k == 2 {
            Section::Preferences
        } else if k == 3 {
            Section::Goals
        } else {
            Section::Observations
        }
    }

    /// The section at a place of the render order.
    pub fn nth(k: usize) -> (section: Section)
        ensures
            section == Section::at(k as int),
    {
        if k == 0 {
            Section::Facts
        } else if k == 1 {
            Section::Decisions
        } else if k == 2 {
            Section::Preferences
        } else if k == 3 {
            Section::Goals
        } else {
            Section::Observations
        }
    }

    /// What the memories of a section are about.
    pub open spec fn holds(self) -> MemoryType {
        match self {
            Section::Facts => MemoryType::Fact,
            Section::Decisions => MemoryType::Decision,
            Section::Preferences => MemoryType::Preference,
            Section::Goals => MemoryType::Goal,
            Section::Observations => MemoryType::Observation,
        }
    }

    /// What the memories of a section are about.
    pub fn memory_type(self) -> (kind: MemoryType)
        ensures
            kind == self.holds(),
    {
        match self {
            Section::Facts => MemoryType::Fact,
            Section::Decisions => MemoryType::Decision,
            Section::Preferences => MemoryType::Preference,
            Section::Goals => MemoryType::Goal,
            Section::Observations => MemoryType::Observation,
        }
    }

    /// The heading of a section.
    pub open spec fn heading(self) -> Seq<char> {
        match self {
            Section::Facts => "Facts"@,
            Section::Decisions => "Decisions"@,
            Section::Preferences => "Preferences"@,
            Section::Goals => "Goals"@,
            Section::Observations => "Observations"@,
        }
    }

    /// The heading of a section.
    pub fn label(self) -> (label: &'static str)
        ensures
            label@ == self.heading(),
    {
        match self {
            Section::Facts => "Facts",
            Section::Decisions => "Decisions",
            Section::Preferences => "Preferences",
            Section::Goals => "Goals",
            Section::Observations => "Observations",
        }
    }

    /// How many entries a section shows at the baseline budget.
    pub open spec fn baseline(self) -> nat {
        if self == Section::Observations {
            8
        } else {
            10
        }
    }

    /// How many entries a section shows under a word budget: the baseline cap
    /// scaled with the budget, at least one.
    pub open spec fn cap(self, max_words: nat) -> nat {
        let scaled = self.baseline() * max_words / BASELINE_BUDGET_WORDS as nat;
        if scaled < 1 {
            1
        } else {
            scaled
        }
    }

    /// How many entries a section shows under a word budget.
    pub fn entry_cap(self, max_words: usize) -> (cap: usize)
        ensures
            cap == self.cap(max_words as nat),
    {
        let scaled: usize = if self == Section::Observations {
            (8 * (max_words as u128) / (BASELINE_BUDGET_WORDS as u128)) as usize
        } else {
            (10 * (max_words as u128) / (BASELINE_BUDGET_WORDS as u128)) as usize
        };
        if scaled < 1 {
            1
        } else {
            scaled
        }
    }
}

/// A memory, as far as the render reads it.
#[derive(Debug)]
pub struct StoredMemory {
    pub id: String,
    pub content: String,
    /// Grows with the importance of the memory.
    pub importance: u32,
    pub updated_at: i64,
}

impl Ranked for StoredMemory {
    /// Stable ordering: importance descending, then the latest update first,
    /// then by id.
    open spec fn outranks(&self, other: &Self) -> bool {
        self.importance > other.importance || self.importance == other.importance && (self.updated_at
            > other.updated_at || self.updated_at == other.updated_at && text::precedes(self.id@, other.id@))
    }

    fn comes_first(&self, other: &Self) -> (yes: bool) {
        self.importance > other.importance || self.importance == other.importance && (self.updated_at
            > other.updated_at || self.updated_at == other.updated_at && text::comes_before(
            self.id.as_str(),
            other.id.as_str(),
        ))
    }
}

/// What the store holds for a section: how many memories in all, and the
/// memories themselves, or as many of them as a render can show.
#[derive(Debug)]
pub struct StoredSection {
    pub total: i64,
    pub entries: Vec<StoredMemory>,
}

/// The bullet of a memory.
pub open spec fn bullet(memory: StoredMemory) -> Seq<char> {
    "- "@ + memory::first_full_line(text::lines_of(memory.content@)) + " ("@ + time::written(
        memory.updated_at as int,
        Pattern::Day,
    ) + ")\n"@
}

/// The bullets of memories.
pub open spec fn bullets(entries: Seq<StoredMemory>) -> Seq<Seq<char>> {
    entries.map_values(|memory: StoredMemory| bullet(memory))
}

/// How many words a line has.
pub open spec fn words_in(line: Seq<char>) -> nat {
    text::words_of(line).len()
}

/// How many lines fit a word budget, from the first on.
pub open spec fn fitting(lines: Seq<Seq<char>>, budget: nat) -> nat
    decreases lines.len(),
{
    if lines.len() == 0 || words_in(lines[0]) > budget {
        0
    } else {
        1 + fitting(lines.subrange(1, lines.len() as int), (budget - words_in(lines[0])) as nat)
    }
}

/// What is left of a word budget behind the lines that fit: nothing, once one
/// does not.
pub open spec fn left_over(lines: Seq<Seq<char>>, budget: nat) -> nat
    decreases lines.len(),
{
    if lines.len() == 0 {
        budget
    } else if words_in(lines[0]) > budget {
        0
    } else {
        left_over(lines.subrange(1, lines.len() as int), (budget - words_in(lines[0])) as nat)
    }
}

/// Lines one behind the other.
pub open spec fn run_on(lines: Seq<Seq<char>>) -> Seq<char>
    decreases lines.len(),
{
    if lines.len() == 0 {
        Seq::empty()
    } else {
        run_on(lines.drop_last()) + lines.last()
    }
}

/// A section as it is rendered.
pub open spec fn section_text(section: Section, total: int, lines: Seq<Seq<char>>) -> Seq<char> {
    "\n"@ + (if lines.len() < total {
        "### "@ + section.heading() + " — "@ + text::decimal(lines.len()) + " of "@ + text::decimal(total as nat)
            + "\n"@
    } else {
        "### "@ + section.heading() + "\n"@
    }) + run_on(lines)
}

/// The entries of a section that a render considers: the first in order, up to
/// the entry cap.
pub open spec fn considered(section: Section, entries: Seq<StoredMemory>, max_words: nat) -> Seq<StoredMemory> {
    let sorted = order::ranked(entries);
    if sorted.len() <= section.cap(max_words) {
        sorted
    } else {
        sorted.take(section.cap(max_words) as int)
    }
}

/// The sections from one on, under what is left of the budget.
pub open spec fn sections_text(sections: Seq<StoredSection>, k: int, max_words: nat, budget: nat) -> Seq<char>
    decreases sections.len() - k,
{
    if k >= sections.len() || k < 0 || budget == 0 {
        Seq::empty()
    } else if sections[k].total == 0 {
        sections_text(sections, k + 1, max_words, budget)
    } else {
        let lines = bullets(considered(Section::at(k), sections[k].entries@, max_words));
        let shown = fitting(lines, budget);
        if shown == 0 {
            Seq::empty()
        } else if shown < lines.len() {
            section_text(Section::at(k), sections[k].total as int, lines.take(shown as int))
        } else {
            section_text(Section::at(k), sections[k].total as int, lines.take(shown as int)) + sections_text(
                sections,
                k + 1,
                max_words,
                left_over(lines, budget),
            )
        }
    }
}

/// How many steps of a task are done.
pub open spec fn completed(subtasks: Seq<TaskSubtask>) -> nat
    decreases subtasks.len(),
{
    if subtasks.len() == 0 {
        0
    } else if subtasks.last().completed {
        completed(subtasks.drop_last()) + 1
    } else {
        completed(subtasks.drop_last())
    }
}

/// How far a task has got.
pub open spec fn progress(subtasks: Seq<TaskSubtask>) -> Seq<char> {
    if subtasks.len() == 0 {
        Seq::empty()
    } else {
        " ["@ + text::decimal(completed(subtasks)) + "/"@ + text::decimal(subtasks.len()) + "]"@
    }
}

/// The bullet of a task.
pub open spec fn task_bullet(task: Task) -> Seq<char> {
    "- #"@ + text::signed_decimal(task.task_number as int) + " ["@ + task.status.name() + "] ("@
        + task.priority.name() + ") "@ + task.title@ + progress(task.subtasks@) + "\n"@
}

/// Whether a task is assigned to an agent and has a status.
pub open spec fn assigned_as(agent_id: Seq<char>, status: TaskStatus) -> spec_fn(Task) -> bool {
    |task: Task| text::opt_text(task.assigned_agent_id) == Some(agent_id) && task.status == status
}

/// The tasks of one status that are listed.
pub open spec fn listed_tasks(tasks: Seq<Task>, agent_id: Seq<char>, status: TaskStatus) -> Seq<Task> {
    let all = tasks.filter(assigned_as(agent_id, status));
    if all.len() <= TASKS_PER_STATUS {
        all
    } else {
        all.take(TASKS_PER_STATUS as int)
    }
}

/// The bullets of tasks.
pub open spec fn task_bullets(tasks: Seq<Task>) -> Seq<Seq<char>> {
    tasks.map_values(|task: Task| task_bullet(task))
}

/// The tasks of a board that are not done, for an agent.
pub open spec fn active_tasks(tasks: Seq<Task>, agent_id: Seq<char>) -> Seq<Task> {
    listed_tasks(tasks, agent_id, TaskStatus::InProgress) + listed_tasks(tasks, agent_id, TaskStatus::Ready)
        + listed_tasks(tasks, agent_id, TaskStatus::Backlog) + listed_tasks(
        tasks,
        agent_id,
        TaskStatus::PendingApproval,
    )
}

/// The standing section on tasks.
pub open spec fn tasks_text(tasks: Seq<Task>, agent_id: Seq<char>) -> Seq<char> {
    let active = active_tasks(tasks, agent_id);
    "\n### Active Tasks\n"@ + (if active.len() == 0 {
        "- No active tasks.\n"@
    } else {
        run_on(task_bullets(active))
    })
}

/// First non-empty line of a memory's content, for a single-line bullet.
pub fn first_line(content: &str) -> (line: String)
    ensures
        line@ == memory::first_full_line(text::lines_of(content@)),
{
    memory::first_text_line(content)
}

fn write_bullet(memory: &StoredMemory) -> (line: String)
    requires
        time::in_calendar(memory.updated_at as int),
    ensures
        line@ == bullet(*memory),
{
    let mut line = "- ".to_owned();
    line.push_str(first_line(memory.content.as_str()).as_str());
    line.push_str(" (");
    line.push_str(time::write_utc(memory.updated_at, Pattern::Day).as_str());
    line.push_str(")\n");
    line
}

/// What was rendered of a section.
struct Rendered {
    body: String,
    shown: usize,
    left: usize,
    complete: bool,
}

proof fn fitting_bounded(lines: Seq<Seq<char>>, budget: nat)
    ensures
        fitting(lines, budget) <= lines.len(),
    decreases lines.len(),
{
    if lines.len() > 0 && words_in(lines[0]) <= budget {
        fitting_bounded(lines.subrange(1, lines.len() as int), (budget - words_in(lines[0])) as nat);
    }
}

/// Renders the entries of a section against the remaining budget.
fn render_entries(entries: &Vec<StoredMemory>, budget: usize) -> (rendered: Rendered)
    requires
        forall|k: int| 0 <= k < entries@.len() ==> time::in_calendar((#[trigger] entries@[k]).updated_at as int),
    ensures
        rendered.shown == fitting(bullets(entries@), budget as nat),
        rendered.left == left_over(bullets(entries@), budget as nat),
        rendered.shown <= entries@.len(),
        rendered.body@ == run_on(bullets(entries@).take(rendered.shown as int)),
        rendered.complete == (rendered.shown == entries@.len()),
{
    let ghost lines = bullets(entries@);
    let len: usize = entries.len();
    let mut body = String::new();
    let mut shown: usize = 0;
    let mut left: usize = budget;
    assert(lines.subrange(0, lines.len() as int) =~= lines);
    assert(body@ =~= run_on(lines.take(0)));
    while shown < len
        invariant
            len == entries@.len(),
            lines == bullets(entries@),
            forall|k: int| 0 <= k < entries@.len() ==> time::in_calendar((#[trigger] entries@[k]).updated_at as int),
            shown <= len,
            body@ == run_on(lines.take(shown as int)),
            fitting(lines, budget as nat) == shown + fitting(
                lines.subrange(shown as int, lines.len() as int),
                left as nat,
            ),
            left_over(lines, budget as nat) == left_over(
                lines.subrange(shown as int, lines.len() as int),
                left as nat,
            ),
        decreases len - shown,
    {
        let ghost here = lines.subrange(shown as int, lines.len() as int);
        let line = write_bullet(&entries[shown]);
        assert(here[0] == line@);
        assert(here.subrange(1, here.len() as int) =~= lines.subrange(shown + 1, lines.len() as int));
        let words: usize = text::split_whitespace(line.as_str()).len();
        assert(words == words_in(line@));
        if words > left {
            return Rendered { body, shown, left: 0, complete: false };
        }
        left = left - words;
        assert(lines.take(shown + 1).drop_last() =~= lines.take(shown as int));
        body.push_str(line.as_str());
        shown = shown + 1;
    }
    Rendered { body, shown, left, complete: true }
}

fn write_section(section: Section, total: i64, shown: usize, body: &str, Ghost(lines): Ghost<Seq<Seq<char>>>) -> (s: String)
    requires
        total >= 0,
        lines.len() == shown,
        body@ == run_on(lines),
    ensures
        s@ == section_text(section, total as int, lines),
{
    let mut header = "### ".to_owned();
    header.push_str(section.label());
    if (shown as u64) < total as u64 {
        header.push_str(" — ");
        header.push_str(text::show_usize(shown).as_str());
        header.push_str(" of ");
        header.push_str(text::show(total as u64).as_str());
    }
    header.push_str("\n");
    let mut s = "\n".to_owned();
    s.push_str(header.as_str());
    s.push_str(body);
    s
}

/// Renders the global memory-store view for the knowledge-context slot.
///
/// `max_words` caps the memory sections, each of which also has an entry cap
/// that scales with it; the Active Tasks section always
/// renders regardless: task-awareness is a standing signal, and an empty board
/// is itself information. Shown-of-total counts report what was actually
/// rendered against what the store holds. When the word budget exhausts
/// mid-render, the render stops: no section header is ever emitted without at
/// least one entry under it.
pub fn render_memory_store(sections: Vec<StoredSection>, tasks: &Vec<Task>, agent_id: &str, max_words: usize) -> (output: String)
    requires
        sections@.len() == SECTION_COUNT,
        forall|k: int| 0 <= k < sections@.len() ==> (#[trigger] sections@[k]).total >= 0,
        forall|k: int, i: int|
            0 <= k < sections@.len() && 0 <= i < sections@[k].entries@.len() ==> time::in_calendar(
                (#[trigger] sections@[k].entries@[i]).updated_at as int,
            ),
    ensures
        output@ == "## Memory Store\n\nScope: global\n"@ + sections_text(sections@, 0, max_words as nat, max_words as nat) + tasks_text(
            tasks@,
            agent_id@,
        ),
{
    let ghost all = sections@;
    let ghost head = "## Memory Store\n\nScope: global\n"@;
    let mut output = "## Memory Store\n\nScope: global\n".to_owned();
    let mut budget: usize = max_words;
    let mut rest = sections;
    let mut k: usize = 0;
    assert(rest@ =~= all.subrange(0, all.len() as int));
    assert(output@ + sections_text(all, 0, max_words as nat, max_words as nat) =~= head + sections_text(all, 0, max_words as nat, max_words as nat));
    while rest.len() > 0
        invariant_except_break
            rest@ == all.subrange(k as int, all.len() as int),
            k <= all.len(),
            all.len() == SECTION_COUNT,
            forall|k: int| 0 <= k < all.len() ==> (#[trigger] all[k]).total >= 0,
            forall|k: int, i: int|
                0 <= k < all.len() && 0 <= i < all[k].entries@.len() ==> time::in_calendar(
                    (#[trigger] all[k].entries@[i]).updated_at as int,
                ),
            output@ + sections_text(all, k as int, max_words as nat, budget as nat) == head + sections_text(all, 0, max_words as nat, max_words as nat),
        ensures
            output@ == head + sections_text(all, 0, max_words as nat, max_words as nat),
        decreases rest@.len(),
    {
        if budget == 0 {
            assert(output@ + Seq::<char>::empty() =~= output@);
            break;
        }
        let next = rest.remove(0);
        assert(next == all[k as int]);
        assert(rest@ =~= all.subrange(k + 1, all.len() as int));
        if next.total == 0 {
            k = k + 1;
        } else {
            let total: i64 = next.total;
            let ghost raw = next.entries@;
            proof {
                ranked_in_calendar(raw);
            }
            let section = Section::nth(k);
            let mut entries = order::rank(next.entries);
            let cap: usize = section.entry_cap(max_words);
            if entries.len() > cap {
                entries.truncate(cap);
                assert(entries@ =~= order::ranked(raw).take(cap as int));
            }
            assert(entries@ == considered(section, raw, max_words as nat));
            let ghost lines = bullets(entries@);
            proof {
                fitting_bounded(lines, budget as nat);
            }
            let rendered = render_entries(&entries, budget);
            if rendered.shown == 0 {
                assert(output@ + Seq::<char>::empty() =~= output@);
                break;
            }
            let ghost shown_lines = lines.take(rendered.shown as int);
            let written = write_section(section, total, rendered.shown, rendered.body.as_str(), Ghost(shown_lines));
            let ghost before = output@;
            output.push_str(written.as_str());
            if !rendered.complete {
                break;
            }
            assert(before + (written@ + sections_text(all, k + 1, max_words as nat, rendered.left as nat)) =~= output@ + sections_text(
                all,
                k + 1,
                max_words as nat,
                rendered.left as nat,
            ));
            budget = rendered.left;
            k = k + 1;
        }
        assert(rest@.len() == 0 ==> output@ + Seq::<char>::empty() =~= output@);
    }
    output.push_str(render_active_tasks(tasks, agent_id).as_str());
    output
}

proof fn ranked_in_calendar(entries: Seq<StoredMemory>)
    requires
        forall|k: int| 0 <= k < entries.len() ==> time::in_calendar((#[trigger] entries[k]).updated_at as int),
    ensures
        order::ranked(entries).len() == entries.len(),
        forall|k: int|
            0 <= k < entries.len() ==> time::in_calendar((#[trigger] order::ranked(entries)[k]).updated_at as int),
{
    order::law_ranking_is_a_rearrangement(entries);
    let sorted = order::ranked(entries);
    broadcast use vstd::seq_lib::group_to_multiset_ensures;

    assert forall|k: int| 0 <= k < sorted.len() implies time::in_calendar((#[trigger] sorted[k]).updated_at as int) by {
        assert(sorted.to_multiset().contains(sorted[k]));
        assert(entries.contains(sorted[k]));
        let m = choose|m: int| 0 <= m < entries.len() && entries[m] == sorted[k];
        assert(time::in_calendar(entries[m].updated_at as int));
    }
}

fn count_completed(subtasks: &Vec<TaskSubtask>) -> (done: usize)
    ensures
        done == completed(subtasks@),
        done <= subtasks@.len(),
{
    let len: usize = subtasks.len();
    let mut done: usize = 0;
    let mut k: usize = 0;
    while k < len
        invariant
            len == subtasks@.len(),
            k <= len,
            done <= k,
            done == completed(subtasks@.take(k as int)),
        decreases len - k,
    {
        assert(subtasks@.take(k + 1).drop_last() =~= subtasks@.take(k as int));
        if subtasks[k].completed {
            done = done + 1;
        }
        k = k + 1;
    }
    assert(subtasks@.take(k as int) =~= subtasks@);
    done
}

fn write_task(task: &Task) -> (line: String)
    ensures
        line@ == task_bullet(*task),
{
    let mut progress = String::new();
    if task.subtasks.len() > 0 {
        progress = " [".to_owned();
        progress.push_str(text::show_usize(count_completed(&task.subtasks)).as_str());
        progress.push_str("/");
        progress.push_str(text::show_usize(task.subtasks.len()).as_str());
        progress.push_str("]");
    }
    let mut line = "- #".to_owned();
    line.push_str(text::show_signed(task.task_number).as_str());
    line.push_str(" [");
    line.push_str(task.status.as_str());
    line.push_str("] (");
    line.push_str(task.priority.as_str());
    line.push_str(") ");
    line.push_str(task.title.as_str());
    line.push_str(progress.as_str());
    line.push_str("\n");
    line
}

/// Writes the tasks of one status behind what was written.
fn write_tasks(
    output: &mut String,
    tasks: &Vec<Task>,
    agent_id: &str,
    status: TaskStatus,
    Ghost(before): Ghost<Seq<Task>>,
) -> (count: usize)
    requires
        old(output)@ == run_on(task_bullets(before)),
    ensures
        final(output)@ == run_on(task_bullets(before + listed_tasks(tasks@, agent_id@, status))),
        count == listed_tasks(tasks@, agent_id@, status).len(),
{
    let ghost wanted = assigned_as(agent_id@, status);
    let len: usize = tasks.len();
    let mut count: usize = 0;
    let mut k: usize = 0;
    reveal(Seq::filter);
    assert(before + listed_tasks(tasks@.take(0), agent_id@, status) =~= before);
    while k < len
        invariant
            len == tasks@.len(),
            k <= len,
            wanted == assigned_as(agent_id@, status),
            count <= k,
            count == listed_tasks(tasks@.take(k as int), agent_id@, status).len(),
            count <= TASKS_PER_STATUS,
            output@ == run_on(task_bullets(before + listed_tasks(tasks@.take(k as int), agent_id@, status))),
        decreases len - k,
    {
        let ghost here = tasks@.take(k as int).filter(wanted);
        let ghost next = tasks@.take(k + 1).filter(wanted);
        proof {
            reveal(Seq::filter);
            assert(tasks@.take(k + 1).drop_last() =~= tasks@.take(k as int));
        }
        let task = &tasks[k];
        let assigned = match &task.assigned_agent_id {
            Some(agent) => text::same(agent.as_str(), agent_id),
            None => false,
        };
        if assigned && task.status == status {
            assert(next == here.push(*task));
            if count < TASKS_PER_STATUS {
                let ghost grown = before + here;
                assert(before + next =~= grown.push(*task));
                assert(task_bullets(grown.push(*task)) =~= task_bullets(grown).push(task_bullet(*task)));
                assert(task_bullets(grown.push(*task)).drop_last() =~= task_bullets(grown));
                output.push_str(write_task(task).as_str());
                count = count + 1;
            } else {
                assert(next.take(TASKS_PER_STATUS as int) =~= here.take(TASKS_PER_STATUS as int));
                assert(here.len() == TASKS_PER_STATUS ==> here.take(TASKS_PER_STATUS as int) =~= here);
            }
        } else {
            assert(next == here);
        }
        k = k + 1;
    }
    assert(tasks@.take(k as int) =~= tasks@);
    count
}

/// Non-done tasks assigned to this agent, as a standing section.
pub fn render_active_tasks(tasks: &Vec<Task>, agent_id: &str) -> (output: String)
    ensures
        output@ == tasks_text(tasks@, agent_id@),
{
    let ghost running = listed_tasks(tasks@, agent_id@, TaskStatus::InProgress);
    let ghost ready = listed_tasks(tasks@, agent_id@, TaskStatus::Ready);
    let ghost backlog = listed_tasks(tasks@, agent_id@, TaskStatus::Backlog);
    let mut body = String::new();
    let ghost none = Seq::<Task>::empty();
    assert(body@ =~= run_on(task_bullets(none)));
    let a: usize = write_tasks(&mut body, tasks, agent_id, TaskStatus::InProgress, Ghost(none));
    assert(none + running =~= running);
    let b: usize = write_tasks(&mut body, tasks, agent_id, TaskStatus::Ready, Ghost(running));
    let c: usize = write_tasks(&mut body, tasks, agent_id, TaskStatus::Backlog, Ghost(running + ready));
    let d: usize = write_tasks(
        &mut body,
        tasks,
        agent_id,
        TaskStatus::PendingApproval,
        Ghost(running + ready + backlog),
    );
    let mut output = "\n### Active Tasks\n".to_owned();
    if a == 0 && b == 0 && c == 0 && d == 0 {
        output.push_str("- No active tasks.\n");
    } else {
        output.push_str(body.as_str());
    }
    output
}

// ---------------------------------------------------------------------------
// Laws
// ---------------------------------------------------------------------------

/// How many words some lines have together.
pub open spec fn words_together(lines: Seq<Seq<char>>) -> nat
    decreases lines.len(),
{
    if lines.len() == 0 {
        0
    } else {
        words_in(lines[0]) + words_together(lines.subrange(1, lines.len() as int))
    }
}

/// What is shown of a section stays within its word budget.
pub proof fn law_shown_entries_fit_the_budget(lines: Seq<Seq<char>>, budget: nat)
    ensures
        fitting(lines, budget) <= lines.len(),
        words_together(lines.take(fitting(lines, budget) as int)) + left_over(lines, budget) <= budget,
    decreases lines.len(),
{
    let shown = fitting(lines, budget);
    if lines.len() > 0 && words_in(lines[0]) <= budget {
        let rest = lines.subrange(1, lines.len() as int);
        let left = (budget - words_in(lines[0])) as nat;
        law_shown_entries_fit_the_budget(rest, left);
        let taken = lines.take(shown as int);
        assert(taken.subrange(1, taken.len() as int) =~= rest.take(fitting(rest, left) as int));
    }
}

/// The sections that are rendered from one on, under what is left of the
/// budget: which, and the bullets that each shows.
pub open spec fn shown_sections(sections: Seq<StoredSection>, k: int, max_words: nat, budget: nat) -> Seq<
    (int, Seq<Seq<char>>),
>
    decreases sections.len() - k,
{
    if k >= sections.len() || k < 0 || budget == 0 {
        Seq::empty()
    } else if sections[k].total == 0 {
        shown_sections(sections, k + 1, max_words, budget)
    } else {
        let lines = bullets(considered(Section::at(k), sections[k].entries@, max_words));
        let shown = fitting(lines, budget);
        if shown == 0 {
            Seq::empty()
        } else if shown < lines.len() {
            seq![(k, lines.take(shown as int))]
        } else {
            seq![(k, lines.take(shown as int))] + shown_sections(sections, k + 1, max_words, left_over(lines, budget))
        }
    }
}

/// Sections one behind the other, each with the bullets that it shows.
pub open spec fn laid_out(sections: Seq<StoredSection>, shown: Seq<(int, Seq<Seq<char>>)>) -> Seq<char>
    decreases shown.len(),
{
    if shown.len() == 0 {
        Seq::empty()
    } else {
        section_text(Section::at(shown[0].0), sections[shown[0].0].total as int, shown[0].1) + laid_out(
            sections,
            shown.subrange(1, shown.len() as int),
        )
    }
}

/// How many words the bullets of sections have together.
pub open spec fn words_shown(shown: Seq<(int, Seq<Seq<char>>)>) -> nat
    decreases shown.len(),
{
    if shown.len() == 0 {
        0
    } else {
        words_together(shown[0].1) + words_shown(shown.subrange(1, shown.len() as int))
    }
}

/// The render of the store is the sections that it shows, and the words of all
/// their bullets together stay within the budget.
pub proof fn law_all_sections_fit_the_budget(sections: Seq<StoredSection>, k: int, max_words: nat, budget: nat)
    ensures
        sections_text(sections, k, max_words, budget) == laid_out(
            sections,
            shown_sections(sections, k, max_words, budget),
        ),
        words_shown(shown_sections(sections, k, max_words, budget)) <= budget,
    decreases sections.len() - k,
{
    reveal_with_fuel(laid_out, 2);
    reveal_with_fuel(words_shown, 2);
    if 0 <= k < sections.len() && budget > 0 {
        if sections[k].total == 0 {
            law_all_sections_fit_the_budget(sections, k + 1, max_words, budget);
        } else {
            let lines = bullets(considered(Section::at(k), sections[k].entries@, max_words));
            let shown = fitting(lines, budget);
            law_shown_entries_fit_the_budget(lines, budget);
            let front = seq![(k, lines.take(shown as int))];
            let rest = if shown < lines.len() {
                Seq::empty()
            } else {
                shown_sections(sections, k + 1, max_words, left_over(lines, budget))
            };
            law_all_sections_fit_the_budget(sections, k + 1, max_words, left_over(lines, budget));
            assert((front + rest).subrange(1, (front + rest).len() as int) =~= rest);
            assert(front + Seq::<(int, Seq<Seq<char>>)>::empty() =~= front);
            let own = section_text(Section::at(k), sections[k].total as int, lines.take(shown as int));
            assert(own + Seq::<char>::empty() =~= own);
        }
    }
}

/// No section is rendered without an entry under its heading: where nothing of
/// a section fits, the render of the store ends.
pub proof fn law_no_heading_stands_alone(sections: Seq<StoredSection>, k: int, max_words: nat, budget: nat)
    requires
        0 <= k < sections.len(),
        sections[k].total != 0,
        fitting(bullets(considered(Section::at(k), sections[k].entries@, max_words)), budget) == 0,
    ensures
        sections_text(sections, k, max_words, budget).len() == 0,
{
}

/// A section shows no more entries than its cap, and where it holds more, those
/// it leaves out come after those it considers.
pub proof fn law_sections_stay_within_their_cap(section: Section, entries: Seq<StoredMemory>, max_words: nat)
    ensures
        considered(section, entries, max_words).len() == if entries.len() <= section.cap(max_words) {
            entries.len()
        } else {
            section.cap(max_words)
        },
        considered(section, entries, max_words).is_prefix_of(order::ranked(entries)),
{
    order::law_ranking_is_a_rearrangement(entries);
}

/// Ids are compared as texts: memories with different ids come one before the
/// other.
proof fn memories_rank_consistently()
    ensures
        order::ranks_consistently::<StoredMemory>(),
{
    assert forall|a: StoredMemory, b: StoredMemory|
        #![trigger a.outranks(&b), b.outranks(&a)]
        a.outranks(&b) implies !b.outranks(&a) by {
        if b.outranks(&a) {
            text::precedes_transitive(a.id@, b.id@, a.id@);
            text::precedes_irreflexive(a.id@);
        }
    }
    assert forall|a: StoredMemory, b: StoredMemory, c: StoredMemory|
        #![trigger a.outranks(&b), b.outranks(&c)]
        !a.outranks(&b) && !b.outranks(&c) implies !a.outranks(&c) by {
        if a.outranks(&c) {
            text::precedes_total(a.id@, b.id@);
            text::precedes_total(b.id@, c.id@);
            if text::precedes(c.id@, b.id@) && text::precedes(b.id@, a.id@) {
                text::precedes_transitive(c.id@, b.id@, a.id@);
            }
            if text::precedes(c.id@, a.id@) && text::precedes(a.id@, c.id@) {
                text::precedes_transitive(a.id@, c.id@, a.id@);
                text::precedes_irreflexive(a.id@);
            }
            text::precedes_irreflexive(a.id@);
            text::precedes_irreflexive(b.id@);
        }
    }
}

/// The order in which the store hands the memories of a section out does not
/// show in the render.
pub proof fn law_the_render_ignores_store_order(
    section: Section,
    max_words: nat,
    a: Seq<StoredMemory>,
    b: Seq<StoredMemory>,
)
    requires
        a.to_multiset() == b.to_multiset(),
        forall|x: StoredMemory, y: StoredMemory|
            #![trigger a.contains(x), a.contains(y)]
            a.contains(x) && a.contains(y) && x != y ==> x.id@ != y.id@,
    ensures
        bullets(considered(section, a, max_words)) == bullets(considered(section, b, max_words)),
{
    memories_rank_consistently();
    assert forall|x: StoredMemory, y: StoredMemory|
        #![trigger x.outranks(&y)]
        a.contains(x) && a.contains(y) && x != y implies x.outranks(&y) || y.outranks(&x) by {
        text::precedes_total(x.id@, y.id@);
    }
    order::law_ranking_is_canonical(a, b);
}

/// Where all lines of a section fit, what is left of the budget is the budget
/// less their words; where one does not, it is the first that is too long for
/// what was left, and nothing is left behind it.
pub proof fn law_the_budget_is_spent_word_by_word(lines: Seq<Seq<char>>, budget: nat)
    ensures
        fitting(lines, budget) == lines.len() ==> left_over(lines, budget) + words_together(lines) == budget,
        words_together(lines) <= budget ==> fitting(lines, budget) == lines.len(),
        fitting(lines, budget) < lines.len() ==> left_over(lines, budget) == 0 && words_together(
            lines.take(fitting(lines, budget) as int + 1),
        ) > budget,
    decreases lines.len(),
{
    if lines.len() > 0 {
        let rest = lines.subrange(1, lines.len() as int);
        if words_in(lines[0]) <= budget {
            let left = (budget - words_in(lines[0])) as nat;
            law_the_budget_is_spent_word_by_word(rest, left);
            let shown = fitting(lines, budget);
            if shown < lines.len() {
                let more = lines.take(shown as int + 1);
                assert(more.subrange(1, more.len() as int) =~= rest.take(fitting(rest, left) as int + 1));
                assert(more[0] == lines[0]);
            }
        } else {
            let more = lines.take(1);
            assert(more[0] == lines[0]);
            assert(more.subrange(1, 1) =~= Seq::<Seq<char>>::empty());
            assert(words_together(more.subrange(1, 1)) == 0);
            assert(words_together(more) == words_in(lines[0]));
        }
    }
}

/// How many words the entries that a render considers have, over all sections
/// from one on that hold something.
pub open spec fn words_wanted(sections: Seq<StoredSection>, k: int, max_words: nat) -> nat
    decreases sections.len() - k,
{
    if k < 0 || k >= sections.len() {
        0
    } else {
        (if sections[k].total == 0 {
            0
        } else {
            words_together(bullets(considered(Section::at(k), sections[k].entries@, max_words)))
        }) + words_wanted(sections, k + 1, max_words)
    }
}

proof fn words_do_not_vanish(line: Seq<char>)
    requires
        line.len() > 0,
        !text::is_space(line[0]),
    ensures
        words_in(line) > 0,
    decreases line.len(),
{
    let front = line.drop_last();
    if line.len() > 1 {
        words_do_not_vanish(front);
    } else {
        assert(front =~= Seq::<char>::empty());
    }
}

proof fn bullets_have_words(entries: Seq<StoredMemory>)
    requires
        entries.len() > 0,
    ensures
        words_together(bullets(entries)) > 0,
{
    reveal_strlit("- ");
    let line = bullet(entries[0]);
    assert(bullets(entries)[0] == line);
    assert(line[0] == '-');
    words_do_not_vanish(line);
}

/// Where the budget covers every entry that is considered, every section that
/// holds an entry is rendered, with all of them, in the order of the sections.
pub proof fn law_an_ample_budget_shows_every_section(
    sections: Seq<StoredSection>,
    k: int,
    max_words: nat,
    budget: nat,
    j: int,
)
    requires
        0 <= k <= j < sections.len(),
        words_wanted(sections, k, max_words) <= budget,
        forall|i: int| 0 <= i < sections.len() && (#[trigger] sections[i]).total != 0 ==> sections[i].entries@.len() > 0,
        sections[j].total != 0,
    ensures
        shown_sections(sections, k, max_words, budget).contains(
            (j, bullets(considered(Section::at(j), sections[j].entries@, max_words))),
        ),
    decreases sections.len() - k,
{
    let wanted = (j, bullets(considered(Section::at(j), sections[j].entries@, max_words)));
    let all = shown_sections(sections, k, max_words, budget);
    some_words_are_wanted(sections, k, max_words, j);
    if sections[k].total == 0 {
        law_an_ample_budget_shows_every_section(sections, k + 1, max_words, budget, j);
    } else {
        let entries = considered(Section::at(k), sections[k].entries@, max_words);
        let lines = bullets(entries);
        law_the_budget_is_spent_word_by_word(lines, budget);
        law_sections_stay_within_their_cap(Section::at(k), sections[k].entries@, max_words);
        assert(entries.len() > 0);
        assert(lines.take(lines.len() as int) =~= lines);
        let rest = shown_sections(sections, k + 1, max_words, left_over(lines, budget));
        assert(all == seq![(k, lines)] + rest);
        if j == k {
            assert(all[0] == wanted);
        } else {
            law_an_ample_budget_shows_every_section(sections, k + 1, max_words, left_over(lines, budget), j);
            let m = choose|m: int| 0 <= m < rest.len() && rest[m] == wanted;
            assert(all[m + 1] == wanted);
        }
    }
}

proof fn some_words_are_wanted(sections: Seq<StoredSection>, k: int, max_words: nat, j: int)
    requires
        0 <= k <= j < sections.len(),
        sections[j].total != 0,
        sections[j].entries@.len() > 0,
    ensures
        words_wanted(sections, k, max_words) > 0,
    decreases j - k,
{
    if k < j {
        some_words_are_wanted(sections, k + 1, max_words, j);
    } else {
        let entries = considered(Section::at(k), sections[k].entries@, max_words);
        law_sections_stay_within_their_cap(Section::at(k), sections[k].entries@, max_words);
        bullets_have_words(entries);
    }
}

/// Sections come in their order, each at most once, and each shows entries of
/// its own: the first of those that are considered, at least one of them.
pub proof fn law_sections_come_in_order(sections: Seq<StoredSection>, k: int, max_words: nat, budget: nat)
    requires
        0 <= k,
    ensures
        forall|i: int|
            0 <= i < shown_sections(sections, k, max_words, budget).len() ==> {
                let (at, lines) = #[trigger] shown_sections(sections, k, max_words, budget)[i];
                &&& k <= at < sections.len()
                &&& sections[at].total != 0
                &&& lines.len() > 0
                &&& lines.is_prefix_of(bullets(considered(Section::at(at), sections[at].entries@, max_words)))
            },
        forall|i: int, m: int|
            0 <= i < m < shown_sections(sections, k, max_words, budget).len() ==> (#[trigger] shown_sections(
                sections,
                k,
                max_words,
                budget,
            )[i]).0 < (#[trigger] shown_sections(sections, k, max_words, budget)[m]).0,
    decreases sections.len() - k,
{
    let all = shown_sections(sections, k, max_words, budget);
    if k < sections.len() && budget > 0 {
        if sections[k].total == 0 {
            law_sections_come_in_order(sections, k + 1, max_words, budget);
        } else {
            let lines = bullets(considered(Section::at(k), sections[k].entries@, max_words));
            let shown = fitting(lines, budget);
            fitting_bounded(lines, budget);
            let rest = shown_sections(sections, k + 1, max_words, left_over(lines, budget));
            law_sections_come_in_order(sections, k + 1, max_words, left_over(lines, budget));
            if shown > 0 && shown == lines.len() {
                assert forall|i: int| 0 < i < all.len() implies #[trigger] all[i] == rest[i - 1] by {}
            }
        }
    }
}

/// The heading of a section says how much of it is shown exactly where that is
/// not all of it; below it stand the entries.
pub proof fn law_headings_count_what_is_left_out(section: Section, total: int, lines: Seq<Seq<char>>)
    requires
        total >= 0,
    ensures
        text::begins(section_text(section, total, lines), "\n### "@ + section.heading()),
        text::ends(section_text(section, total, lines), run_on(lines)),
        lines.len() >= total ==> section_text(section, total, lines) == "\n### "@ + section.heading() + "\n"@ + run_on(
            lines,
        ),
        lines.len() < total ==> text::occurs_in(
            section_text(section, total, lines),
            text::decimal(lines.len()) + " of "@ + text::decimal(total as nat),
        ),
{
    reveal_strlit("\n");
    reveal_strlit("### ");
    reveal_strlit("\n### ");
    assert("\n"@ + "### "@ =~= "\n### "@);
    let whole = section_text(section, total, lines);
    let head = "\n### "@ + section.heading();
    let body = run_on(lines);
    assert(whole.subrange(0, head.len() as int) =~= head);
    assert(whole.subrange(whole.len() - body.len(), whole.len() as int) =~= body);
    if lines.len() < total {
        let counts = text::decimal(lines.len()) + " of "@ + text::decimal(total as nat);
        let at = (head + " — "@).len() as int;
        assert(whole.subrange(at, at + counts.len()) =~= counts);
        assert(text::occurs_at(whole, counts, at));
    } else {
        assert(whole =~= "\n### "@ + section.heading() + "\n"@ + body);
    }
}

/// A section's cap grows with the budget in proportion to the baseline, and is
/// never less than one entry.
pub proof fn law_caps_scale_with_the_budget(section: Section, max_words: nat, more: nat)
    requires
        max_words <= more,
    ensures
        section.cap(max_words) >= 1,
        section.cap(max_words) <= section.cap(more),
        section.cap(BASELINE_BUDGET_WORDS as nat) == section.baseline(),
        section.cap(max_words) > 1 ==> section.cap(max_words) * BASELINE_BUDGET_WORDS <= section.baseline() * max_words
            < (section.cap(max_words) + 1) * BASELINE_BUDGET_WORDS,
{
    let base = section.baseline();
    assert(base * max_words <= base * more) by (nonlinear_arith)
        requires
            max_words <= more,
    ;
    vstd::arithmetic::div_mod::lemma_div_is_ordered(
        (base * max_words) as int,
        (base * more) as int,
        BASELINE_BUDGET_WORDS as int,
    );
    vstd::arithmetic::div_mod::lemma_fundamental_div_mod((base * max_words) as int, BASELINE_BUDGET_WORDS as int);
    vstd::arithmetic::div_mod::lemma_mod_bound((base * max_words) as int, BASELINE_BUDGET_WORDS as int);
    vstd::arithmetic::div_mod::lemma_div_multiples_vanish(base as int, BASELINE_BUDGET_WORDS as int);
    assert(base * BASELINE_BUDGET_WORDS == BASELINE_BUDGET_WORDS * base) by (nonlinear_arith);
}

/// Every section of the render holds memories of one kind, no kind has two
/// sections, and no two sections read alike.
pub proof fn law_sections_are_told_apart(i: int, k: int)
    requires
        0 <= i < k < SECTION_COUNT,
    ensures
        Section::at(i) != Section::at(k),
        Section::at(i).holds() != Section::at(k).holds(),
        Section::at(i).heading() != Section::at(k).heading(),
{
    reveal_strlit("Facts");
    reveal_strlit("Decisions");
    reveal_strlit("Preferences");
    reveal_strlit("Goals");
    reveal_strlit("Observations");
    assert("Facts"@[0] == 'F' && "Decisions"@[0] == 'D' && "Preferences"@[0] == 'P' && "Goals"@[0] == 'G'
        && "Observations"@[0] == 'O');
}

/// The heading of a section is the name of the memories it holds, as a
/// plural.
pub proof fn law_headings_name_their_memories(section: Section)
    ensures
        text::ascii_lowered(section.heading()) == section.holds().name() + "s"@,
{
    reveal_strlit("Facts");
    reveal_strlit("Decisions");
    reveal_strlit("Preferences");
    reveal_strlit("Goals");
    reveal_strlit("Observations");
    reveal_strlit("fact");
    reveal_strlit("decision");
    reveal_strlit("preference");
    reveal_strlit("goal");
    reveal_strlit("observation");
    reveal_strlit("s");
    assert(text::ascii_lowered(section.heading()) =~= section.holds().name() + "s"@);
}

/// The more important memory is considered first, and of two that are equally
/// important the one that was updated last.
pub proof fn law_important_memories_come_first(section: Section, entries: Seq<StoredMemory>, max_words: nat, i: int, k: int)
    requires
        0 <= i < k < considered(section, entries, max_words).len(),
    ensures
        ({
            let sorted = considered(section, entries, max_words);
            &&& sorted[i].importance >= sorted[k].importance
            &&& sorted[i].importance == sorted[k].importance ==> sorted[i].updated_at >= sorted[k].updated_at
            &&& sorted[i].importance == sorted[k].importance && sorted[i].updated_at == sorted[k].updated_at
                ==> !text::precedes(sorted[k].id@, sorted[i].id@)
        }),
{
    memories_rank_consistently();
    order::law_ranking_orders(entries);
    let sorted = order::ranked(entries);
    assert(considered(section, entries, max_words)[i] == sorted[i]);
    assert(considered(section, entries, max_words)[k] == sorted[k]);
    assert(!sorted[k].outranks(&sorted[i]));
}

/// A bullet shows the first line of its memory and the day of its update.
pub proof fn law_a_bullet_shows_its_memory(memory: StoredMemory)
    ensures
        text::begins(bullet(memory), "- "@ + memory::first_full_line(text::lines_of(memory.content@))),
        text::ends(bullet(memory), " ("@ + time::written(memory.updated_at as int, Pattern::Day) + ")\n"@),
{
    let whole = bullet(memory);
    let head = "- "@ + memory::first_full_line(text::lines_of(memory.content@));
    let tail = " ("@ + time::written(memory.updated_at as int, Pattern::Day) + ")\n"@;
    assert(whole =~= head + tail);
    assert(whole.subrange(0, head.len() as int) =~= head);
    assert(whole.subrange(whole.len() - tail.len(), whole.len() as int) =~= tail);
}

/// Lines run on without anything between them.
pub proof fn law_lines_run_on(a: Seq<Seq<char>>, b: Seq<Seq<char>>)
    ensures
        run_on(a + b) == run_on(a) + run_on(b),
        run_on(seq![]) == Seq::<char>::empty(),
        a.len() == 1 ==> run_on(a) == a[0],
    decreases b.len(),
{
    if b.len() == 0 {
        assert(a + b =~= a);
        assert(run_on(a) + run_on(b) =~= run_on(a));
    } else {
        law_lines_run_on(a, b.drop_last());
        assert((a + b).drop_last() =~= a + b.drop_last());
        assert(run_on(a + b) =~= run_on(a) + run_on(b));
    }
    if a.len() == 1 {
        assert(a.drop_last() =~= Seq::<Seq<char>>::empty());
        assert(run_on(a.drop_last()) =~= Seq::<char>::empty());
        assert(run_on(a) =~= a[0]);
    }
}

proof fn kept_exactly(tasks: Seq<Task>, pred: spec_fn(Task) -> bool, task: Task)
    ensures
        tasks.filter(pred).contains(task) <==> tasks.contains(task) && pred(task),
    decreases tasks.len(),
{
    reveal(Seq::filter);
    if tasks.len() > 0 {
        let front = tasks.drop_last();
        kept_exactly(front, pred, task);
        let kept = front.filter(pred);
        let all = tasks.filter(pred);
        if tasks.contains(task) && pred(task) {
            let k = choose|k: int| 0 <= k < tasks.len() && tasks[k] == task;
            if k < front.len() {
                assert(front[k] == task);
                let m = choose|m: int| 0 <= m < kept.len() && kept[m] == task;
                assert(all[m] == task);
            } else {
                assert(all[kept.len() as int] == task);
            }
        }
        if all.contains(task) {
            let m = choose|m: int| 0 <= m < all.len() && all[m] == task;
            if m < kept.len() {
                assert(kept[m] == task);
                let k = choose|k: int| 0 <= k < front.len() && front[k] == task;
                assert(tasks[k] == task);
            } else {
                assert(tasks[tasks.len() - 1] == task);
            }
        }
    }
}

/// The tasks that are listed are the agent's own and not done, and a task of
/// the agent that is not done is left out only where its status has more tasks
/// than are listed.
pub proof fn law_active_tasks_are_the_open_ones(tasks: Seq<Task>, agent_id: Seq<char>, task: Task)
    ensures
        active_tasks(tasks, agent_id).contains(task) ==> tasks.contains(task) && text::opt_text(
            task.assigned_agent_id,
        ) == Some(agent_id) && task.status != TaskStatus::Done,
        tasks.contains(task) && text::opt_text(task.assigned_agent_id) == Some(agent_id) && task.status
            != TaskStatus::Done && tasks.filter(
            |other: Task| text::opt_text(other.assigned_agent_id) == Some(agent_id) && other.status == task.status,
        ).len() <= TASKS_PER_STATUS ==> active_tasks(tasks, agent_id).contains(task),
{
    let a = listed_tasks(tasks, agent_id, TaskStatus::InProgress);
    let b = listed_tasks(tasks, agent_id, TaskStatus::Ready);
    let c = listed_tasks(tasks, agent_id, TaskStatus::Backlog);
    let d = listed_tasks(tasks, agent_id, TaskStatus::PendingApproval);
    let all = active_tasks(tasks, agent_id);
    listed_is_assigned(tasks, agent_id, TaskStatus::InProgress, task);
    listed_is_assigned(tasks, agent_id, TaskStatus::Ready, task);
    listed_is_assigned(tasks, agent_id, TaskStatus::Backlog, task);
    listed_is_assigned(tasks, agent_id, TaskStatus::PendingApproval, task);
    if all.contains(task) {
        let k = choose|k: int| 0 <= k < all.len() && all[k] == task;
        if k < a.len() {
            assert(a[k] == task);
        } else if k < a.len() + b.len() {
            assert(b[k - a.len()] == task);
        } else if k < a.len() + b.len() + c.len() {
            assert(c[k - a.len() - b.len()] == task);
        } else {
            assert(d[k - a.len() - b.len() - c.len()] == task);
        }
    }
    if tasks.contains(task) && text::opt_text(task.assigned_agent_id) == Some(agent_id) && task.status
        != TaskStatus::Done && tasks.filter(
        |other: Task| text::opt_text(other.assigned_agent_id) == Some(agent_id) && other.status == task.status,
    ).len() <= TASKS_PER_STATUS {
        assert(assigned_as(agent_id, task.status) =~= (|other: Task|
            text::opt_text(other.assigned_agent_id) == Some(agent_id) && other.status == task.status));
        let own = listed_tasks(tasks, agent_id, task.status);
        assert(own.contains(task));
        let k = choose|k: int| 0 <= k < own.len() && own[k] == task;
        if task.status == TaskStatus::InProgress {
            assert(all[k] == task);
        } else if task.status == TaskStatus::Ready {
            assert(all[a.len() + k] == task);
        } else if task.status == TaskStatus::Backlog {
            assert(all[a.len() + b.len() + k] == task);
        } else {
            assert(all[a.len() + b.len() + c.len() + k] == task);
        }
    }
}

proof fn listed_is_assigned(tasks: Seq<Task>, agent_id: Seq<char>, status: TaskStatus, task: Task)
    ensures
        listed_tasks(tasks, agent_id, status).contains(task) ==> tasks.contains(task) && text::opt_text(
            task.assigned_agent_id,
        ) == Some(agent_id) && task.status == status,
        tasks.filter(assigned_as(agent_id, status)).len() <= TASKS_PER_STATUS && tasks.contains(task)
            && text::opt_text(task.assigned_agent_id) == Some(agent_id) && task.status == status ==> listed_tasks(
            tasks,
            agent_id,
            status,
        ).contains(task),
{
    let all = tasks.filter(assigned_as(agent_id, status));
    kept_exactly(tasks, assigned_as(agent_id, status), task);
    if listed_tasks(tasks, agent_id, status).contains(task) {
        let k = choose|k: int|
            0 <= k < listed_tasks(tasks, agent_id, status).len() && listed_tasks(tasks, agent_id, status)[k] == task;
        assert(all[k] == task);
    }
}

/// What is under way comes before what is ready, that before the backlog, and
/// that before what waits for approval.
pub proof fn law_tasks_come_by_their_status(tasks: Seq<Task>, agent_id: Seq<char>, i: int, k: int)
    requires
        0 <= i < k < active_tasks(tasks, agent_id).len(),
    ensures
        ({
            let one = active_tasks(tasks, agent_id)[i].status;
            let other = active_tasks(tasks, agent_id)[k].status;
            &&& other == TaskStatus::InProgress ==> one == TaskStatus::InProgress
            &&& other == TaskStatus::Ready ==> one == TaskStatus::InProgress || one == TaskStatus::Ready
            &&& other == TaskStatus::Backlog ==> one != TaskStatus::PendingApproval
        }),
{
    let a = listed_tasks(tasks, agent_id, TaskStatus::InProgress);
    let b = listed_tasks(tasks, agent_id, TaskStatus::Ready);
    let c = listed_tasks(tasks, agent_id, TaskStatus::Backlog);
    let d = listed_tasks(tasks, agent_id, TaskStatus::PendingApproval);
    let all = active_tasks(tasks, agent_id);
    assert forall|n: int| 0 <= n < all.len() implies (#[trigger] all[n]).status == if n < a.len() {
        TaskStatus::InProgress
    } else if n < a.len() + b.len() {
        TaskStatus::Ready
    } else if n < a.len() + b.len() + c.len() {
        TaskStatus::Backlog
    } else {
        TaskStatus::PendingApproval
    } by {
        let task = all[n];
        if n < a.len() {
            assert(a[n] == task);
            listed_is_assigned(tasks, agent_id, TaskStatus::InProgress, task);
        } else if n < a.len() + b.len() {
            assert(b[n - a.len()] == task);
            listed_is_assigned(tasks, agent_id, TaskStatus::Ready, task);
        } else if n < a.len() + b.len() + c.len() {
            assert(c[n - a.len() - b.len()] == task);
            listed_is_assigned(tasks, agent_id, TaskStatus::Backlog, task);
        } else {
            assert(d[n - a.len() - b.len() - c.len()] == task);
            listed_is_assigned(tasks, agent_id, TaskStatus::PendingApproval, task);
        }
    }
}

/// The section on tasks always stands, and says so where there are none.
pub proof fn law_an_empty_board_is_told(tasks: Seq<Task>, agent_id: Seq<char>)
    ensures
        text::begins(tasks_text(tasks, agent_id), "\n### Active Tasks\n"@),
        active_tasks(tasks, agent_id).len() == 0 ==> text::ends(tasks_text(tasks, agent_id), "- No active tasks.\n"@),
        active_tasks(tasks, agent_id).len() > 0 ==> text::ends(
            tasks_text(tasks, agent_id),
            run_on(task_bullets(active_tasks(tasks, agent_id))),
        ),
{
    let whole = tasks_text(tasks, agent_id);
    let head = "\n### Active Tasks\n"@;
    assert(whole.subrange(0, head.len() as int) =~= head);
    let none = "- No active tasks.\n"@;
    let body = run_on(task_bullets(active_tasks(tasks, agent_id)));
    if active_tasks(tasks, agent_id).len() == 0 {
        assert(whole.subrange(head.len() as int, whole.len() as int) =~= none);
    } else {
        assert(whole.subrange(head.len() as int, whole.len() as int) =~= body);
    }
}

/// Every step of a task counts once: the done ones and the open ones make all
/// of them.
pub proof fn law_progress_counts_the_done(subtasks: Seq<TaskSubtask>)
    ensures
        completed(subtasks) == subtasks.filter(|subtask: TaskSubtask| subtask.completed).len(),
        completed(subtasks) <= subtasks.len(),
    decreases subtasks.len(),
{
    reveal(Seq::filter);
    if subtasks.len() > 0 {
        law_progress_counts_the_done(subtasks.drop_last());
    }
}

/// A task is listed by its number, status, priority and title, in this order.
pub proof fn law_a_task_line_shows_its_task(task: Task)
    ensures
        text::begins(
            task_bullet(task),
            "- #"@ + text::signed_decimal(task.task_number as int) + " ["@ + task.status.name() + "] ("@
                + task.priority.name() + ") "@ + task.title@,
        ),
        text::ends(task_bullet(task), progress(task.subtasks@) + "\n"@),
{
    let whole = task_bullet(task);
    let head = "- #"@ + text::signed_decimal(task.task_number as int) + " ["@ + task.status.name() + "] ("@
        + task.priority.name() + ") "@ + task.title@;
    text::law_grouping_does_not_matter(head, progress(task.subtasks@), "\n"@);
    text::law_parts_occur(Seq::empty(), head, progress(task.subtasks@) + "\n"@);
    text::law_parts_occur(head, progress(task.subtasks@) + "\n"@, Seq::empty());
}

} // verus!
