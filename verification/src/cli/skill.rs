//! `spacebot skill`: skill installation and lifecycle.
use vstd::prelude::*;
use crate::cli::output;
use crate::cli::output::{LineModel, Report};
use crate::skills::usage::SkillUsageRecord;
use crate::skills::{Skill, SkillInfo, SkillSource};
use crate::text;

verus! {

broadcast use vstd::seq::group_seq_axioms;

/// The skill commands.
#[derive(Debug)]
pub enum SkillCommand {
    /// Install a skill from GitHub or skills.sh registry
    Add { spec: String, agent: Option<String>, instance: bool },
    /// Install a skill from a .skill file
    Install { path: String, agent: Option<String>, instance: bool },
    /// List installed skills
    List { agent: Option<String> },
    /// Remove an installed skill
    Remove { name: String, agent: Option<String> },
    /// Show skill details
    Info { name: String, agent: Option<String> },
    /// Pin a skill: blocks deletion, and all autonomous modification
    Pin { name: String, agent: Option<String> },
    /// Unpin a skill
    Unpin { name: String, agent: Option<String> },
    /// Hand a skill to automated curation (sets created_by = agent)
    Adopt { name: String, agent: Option<String> },
    /// Archive a workspace skill (recoverable via restore)
    Archive { name: String, agent: Option<String> },
    /// Restore the most recently archived copy of a skill
    Restore { name: String, agent: Option<String> },
}

// ---------------------------------------------------------------------------
// Which agent
// ---------------------------------------------------------------------------

/// Where an agent first stands among the configured ones.
pub open spec fn agent_at(agents: Seq<Seq<char>>, id: Seq<char>) -> Option<int>
    decreases agents.len(),
{
    if agents.len() == 0 {
        None
    } else {
        match agent_at(agents.drop_last(), id) {
            Some(k) => Some(k),
            None => if agents.last() == id {
                Some(agents.len() - 1)
            } else {
                None
            },
        }
    }
}

/// Which configured agent a command is for: the named one, or the first.
pub open spec fn agent_for(agents: Seq<Seq<char>>, agent_id: Option<Seq<char>>) -> Result<int, Seq<char>> {
    match agent_id {
        None => if agents.len() == 0 {
            Err("no agents configured"@)
        } else {
            Ok(0)
        },
        Some(id) => match agent_at(agents, id) {
            Some(k) => Ok(k),
            None => Err("agent not found: "@ + id),
        },
    }
}

/// Which configured agent a command is for.
pub fn get_agent_config(agents: &Vec<String>, agent_id: &Option<String>) -> (at: Result<usize, String>)
    ensures
        (match at {
            Ok(at) => Ok(at as int),
            Err(reason) => Err(reason@),
        }) == agent_for(text::texts(agents@), text::opt_text(*agent_id)),
        at matches Ok(at) ==> at < agents@.len(),
{
    let id = match agent_id {
        None => {
            if agents.len() == 0 {
                return Err("no agents configured".to_owned());
            }
            return Ok(0);
        },
        Some(id) => id,
    };
    let ghost all = text::texts(agents@);
    let mut found: Option<usize> = None;
    let mut k: usize = 0;
    while k < agents.len()
        invariant
            all == text::texts(agents@),
            k <= agents@.len(),
            match found {
                Some(at) => agent_at(all.take(k as int), id@) == Some(at as int) && at < k,
                None => agent_at(all.take(k as int), id@) is None,
            },
        decreases agents@.len() - k,
    {
        assert(all.take(k + 1).drop_last() =~= all.take(k as int));
        assert(all[k as int] == agents@[k as int]@);
        if found.is_none() && text::same(agents[k].as_str(), id.as_str()) {
            found = Some(k);
        }
        k = k + 1;
    }
    assert(all.take(k as int) =~= all);
    match found {
        Some(at) => Ok(at),
        None => {
            let mut reason = "agent not found: ".to_owned();
            reason.push_str(id.as_str());
            Err(reason)
        },
    }
}

/// Says that an agent has no database yet.
pub fn missing_database(path: &str) -> (reason: String)
    ensures
        reason@ == "agent database not found at "@ + path@ + " — has the agent run at least once?"@,
{
    let mut reason = "agent database not found at ".to_owned();
    reason.push_str(path);
    reason.push_str(" — has the agent run at least once?");
    reason
}

// ---------------------------------------------------------------------------
// Decisions
// ---------------------------------------------------------------------------

/// Why a skill cannot be archived, if so.
pub open spec fn archive_refusal(skill: Option<SkillSource>, pinned: bool, name: Seq<char>) -> Option<Seq<char>> {
    match skill {
        None => Some("Skill not found: "@ + name),
        Some(source) => if source != SkillSource::Workspace {
            Some("Only workspace skills can be archived: "@ + name)
        } else if pinned {
            Some("Skill is pinned; unpin it before archiving: "@ + name)
        } else {
            None
        },
    }
}

/// Where a skill was loaded from.
pub open spec fn source_of(skill: Option<&Skill>) -> Option<SkillSource> {
    match skill {
        Some(skill) => Some(skill.source),
        None => None,
    }
}

/// Whether a skill's usage row pins it.
pub open spec fn is_pinned(record: Option<SkillUsageRecord>) -> bool {
    match record {
        Some(record) => record.pinned,
        None => false,
    }
}

fn refuse(before: &str, name: &str) -> (reason: Option<String>)
    ensures
        text::opt_text(reason) == Some(before@ + name@),
{
    let mut reason = before.to_owned();
    reason.push_str(name);
    Some(reason)
}

/// Decides whether a skill can be archived.
pub fn check_archive(skill: Option<&Skill>, record: &Option<SkillUsageRecord>, name: &str) -> (refusal: Option<String>)
    ensures
        text::opt_text(refusal) == archive_refusal(source_of(skill), is_pinned(*record), name@),
{
    let skill = match skill {
        Some(skill) => skill,
        None => {
            return refuse("Skill not found: ", name);
        },
    };
    if skill.source != SkillSource::Workspace {
        return refuse("Only workspace skills can be archived: ", name);
    }
    if let Some(record) = record {
        if record.pinned {
            return refuse("Skill is pinned; unpin it before archiving: ", name);
        }
    }
    None
}

// ---------------------------------------------------------------------------
// What is printed
// ---------------------------------------------------------------------------

/// Says what is being installed, and where.
pub fn announce_install(source: &str, target: &str) -> (report: Report)
    ensures
        report@ == seq![
            LineModel::Out("Installing skill from: "@ + source@),
            LineModel::Out("Target directory: "@ + target@),
        ],
{
    let mut report = Report::new();
    report.field("Installing skill from: ", source);
    report.field("Target directory: ", target);
    assert(report@ =~= seq![
        LineModel::Out("Installing skill from: "@ + source@),
        LineModel::Out("Target directory: "@ + target@),
    ]);
    report
}

/// What is printed of skills that were installed.
pub open spec fn installed_lines(names: Seq<Seq<char>>) -> Seq<LineModel> {
    seq![LineModel::Out("\nSuccessfully installed "@ + text::decimal(names.len()) + " skill(s):"@)] + names.map_values(
        |name: Seq<char>| LineModel::Out("  - "@ + name),
    )
}

/// Prints which skills were installed.
pub fn print_installed(names: &Vec<String>) -> (report: Report)
    ensures
        report@ == installed_lines(text::texts(names@)),
{
    let ghost texts = text::texts(names@);
    let ghost all = texts.map_values(|name: Seq<char>| LineModel::Out("  - "@ + name));
    let mut head = "\nSuccessfully installed ".to_owned();
    head.push_str(text::show_usize(names.len()).as_str());
    head.push_str(" skill(s):");
    let mut report = output::line(head.as_str());
    let ghost start = report@;
    let mut k: usize = 0;
    assert(report@ =~= start + all.take(0));
    while k < names.len()
        invariant
            texts == text::texts(names@),
            all == texts.map_values(|name: Seq<char>| LineModel::Out("  - "@ + name)),
            k <= names@.len(),
            report@ == start + all.take(k as int),
        decreases names@.len() - k,
    {
        report.field("  - ", names[k].as_str());
        assert(texts[k as int] == names@[k as int]@);
        assert(report@ =~= start + all.take(k + 1));
        k = k + 1;
    }
    assert(all.take(k as int) =~= all);
    report
}

/// What is printed of a skill in a listing.
pub open spec fn info_lines(info: SkillInfo) -> Seq<LineModel> {
    seq![LineModel::Out("  "@ + info.name@ + " ("@ + info.source.name() + ")"@)] + (if info.description@.len() == 0 {
        Seq::empty()
    } else {
        seq![LineModel::Out("    "@ + info.description@)]
    }) + seq![LineModel::Out(""@)]
}

/// What is printed of the first skills of a listing.
pub open spec fn infos_lines(infos: Seq<SkillInfo>) -> Seq<LineModel>
    decreases infos.len(),
{
    if infos.len() == 0 {
        Seq::empty()
    } else {
        infos_lines(infos.drop_last()) + info_lines(infos.last())
    }
}

/// What is printed of a listing.
pub open spec fn list_lines(infos: Seq<SkillInfo>) -> Seq<LineModel> {
    if infos.len() == 0 {
        seq![LineModel::Out("No skills installed"@)]
    } else {
        seq![LineModel::Out("Installed skills ("@ + text::decimal(infos.len()) + "):\n"@)] + infos_lines(infos)
    }
}

/// Prints a listing.
pub fn print_list(infos: &Vec<SkillInfo>) -> (report: Report)
    ensures
        report@ == list_lines(infos@),
{
    if infos.len() == 0 {
        return output::line("No skills installed");
    }
    let mut head = "Installed skills (".to_owned();
    head.push_str(text::show_usize(infos.len()).as_str());
    head.push_str("):\n");
    let mut report = output::line(head.as_str());
    let ghost start = report@;
    let mut k: usize = 0;
    assert(report@ =~= start + infos_lines(infos@.take(0)));
    while k < infos.len()
        invariant
            k <= infos@.len(),
            report@ == start + infos_lines(infos@.take(k as int)),
        decreases infos@.len() - k,
    {
        assert(infos@.take(k + 1).drop_last() =~= infos@.take(k as int));
        let info = &infos[k];
        let mut line = "  ".to_owned();
        line.push_str(info.name.as_str());
        line.push_str(" (");
        line.push_str(info.source.label());
        line.push_str(")");
        report.out(line.as_str());
        if !info.description.as_str().is_empty() {
            report.field("    ", info.description.as_str());
        }
        report.out("");
        assert(report@ =~= start + infos_lines(infos@.take(k + 1)));
        k = k + 1;
    }
    assert(infos@.take(k as int) =~= infos@);
    report
}

/// Prints that a skill was removed, or that there is none of that name.
pub fn print_removed(name: &str, path: &Option<String>) -> (report: Report)
    ensures
        report@ == (match *path {
            Some(path) => seq![LineModel::Out("Removed skill: "@ + name@), LineModel::Out("Path: "@ + path@)],
            None => seq![LineModel::Note("Skill not found: "@ + name@ + ""@)],
        }),
{
    match path {
        Some(path) => print_at("Removed skill: ", name, path.as_str()),
        None => output::message_about("Skill not found: ", name, ""),
    }
}

/// Prints what was done with a skill, and where it is.
pub fn print_at(done: &str, name: &str, path: &str) -> (report: Report)
    ensures
        report@ == seq![LineModel::Out(done@ + name@), LineModel::Out("Path: "@ + path@)],
{
    let mut report = Report::new();
    report.field(done, name);
    report.field("Path: ", path);
    assert(report@ =~= seq![LineModel::Out(done@ + name@), LineModel::Out("Path: "@ + path@)]);
    report
}

/// What is known of a skill's usage.
#[derive(Debug)]
pub enum KnownUsage {
    Record(SkillUsageRecord),
    Absent,
    Unavailable(String),
}

/// What is printed of a skill's usage.
pub open spec fn usage_lines(usage: KnownUsage) -> Seq<LineModel> {
    match usage {
        KnownUsage::Record(record) => seq![
            LineModel::Out("Created by: "@ + record.created_by@),
            LineModel::Out("State: "@ + record.state@),
            LineModel::Out("Pinned: "@ + output::true_or_false(record.pinned)),
            LineModel::Out(
                "Reads: "@ + text::signed_decimal(record.read_count as int) + " (last: "@ + text::or_text(
                    text::opt_text(record.last_read_at),
                    "never"@,
                ) + ")"@,
            ),
            LineModel::Out(
                "Patches: "@ + text::signed_decimal(record.patch_count as int) + " (last: "@ + text::or_text(
                    text::opt_text(record.last_patched_at),
                    "never"@,
                ) + ")"@,
            ),
        ],
        KnownUsage::Absent => Seq::empty(),
        KnownUsage::Unavailable(error) => seq![LineModel::Note("(usage data unavailable: "@ + error@ + ")"@)],
    }
}

/// How many characters of a skill's content are shown.
pub const PREVIEW_CHARS: usize = 500;

/// What is printed of a skill's content: its beginning, where it is long.
pub open spec fn content_lines(content: Seq<char>) -> Seq<LineModel> {
    if content.len() > PREVIEW_CHARS {
        seq![
            LineModel::Out("\nContent preview (first 500 chars):\n"@),
            LineModel::Out(content.take(PREVIEW_CHARS as int)),
            LineModel::Out("\n... ("@ + text::decimal((content.len() - PREVIEW_CHARS) as nat) + " more characters)"@),
        ]
    } else {
        seq![LineModel::Out("\nContent:\n"@), LineModel::Out(content)]
    }
}

/// What is printed of a skill.
pub open spec fn skill_lines(skill: Skill, usage: KnownUsage) -> Seq<LineModel> {
    seq![
        LineModel::Out("Skill: "@ + skill.name@),
        LineModel::Out("Description: "@ + skill.description@),
        LineModel::Out("Source: "@ + skill.source.name()),
        LineModel::Out("Path: "@ + skill.file_path@),
        LineModel::Out("Base directory: "@ + skill.base_dir@),
    ] + usage_lines(usage) + content_lines(skill.content@)
}

fn show_times(label: &str, count: i64, last: &Option<String>) -> (line: String)
    ensures
        line@ == label@ + text::signed_decimal(count as int) + " (last: "@ + text::or_text(
            text::opt_text(*last),
            "never"@,
        ) + ")"@,
{
    let mut line = label.to_owned();
    line.push_str(text::show_signed(count).as_str());
    line.push_str(" (last: ");
    line.push_str(text::or_default(last, "never").as_str());
    line.push_str(")");
    line
}

/// Prints a skill.
pub fn print_skill(skill: &Skill, usage: &KnownUsage) -> (report: Report)
    ensures
        report@ == skill_lines(*skill, *usage),
{
    let mut report = Report::new();
    report.field("Skill: ", skill.name.as_str());
    report.field("Description: ", skill.description.as_str());
    report.field("Source: ", skill.source.label());
    report.field("Path: ", skill.file_path.as_str());
    report.field("Base directory: ", skill.base_dir.as_str());
    let ghost head = report@;
    match usage {
        KnownUsage::Record(record) => {
            report.field("Created by: ", record.created_by.as_str());
            report.field("State: ", record.state.as_str());
            report.field("Pinned: ", output::true_false(record.pinned));
            report.out(show_times("Reads: ", record.read_count, &record.last_read_at).as_str());
            report.out(show_times("Patches: ", record.patch_count, &record.last_patched_at).as_str());
        },
        KnownUsage::Absent => {},
        KnownUsage::Unavailable(error) => {
            report.err_about("(usage data unavailable: ", error.as_str(), ")");
        },
    }
    assert(report@ =~= head + usage_lines(*usage));
    let total: usize = skill.content.as_str().unicode_len();
    if total > PREVIEW_CHARS {
        let preview = skill.content.as_str().substring_char(0, PREVIEW_CHARS);
        assert(preview@ =~= skill.content@.take(PREVIEW_CHARS as int));
        report.out("\nContent preview (first 500 chars):\n");
        report.out(preview);
        let mut rest = "\n... (".to_owned();
        rest.push_str(text::show_usize(total - PREVIEW_CHARS).as_str());
        rest.push_str(" more characters)");
        report.out(rest.as_str());
    } else {
        report.out("\nContent:\n");
        report.out(skill.content.as_str());
    }
    assert(report@ =~= skill_lines(*skill, *usage));
    report
}

/// Prints what was done with a skill's usage row.
pub fn print_marked(done: &str, name: &str) -> (report: Report)
    ensures
        report@ == seq![LineModel::Out(done@ + name@)],
{
    let mut report = Report::new();
    report.field(done, name);
    assert(report@ =~= seq![LineModel::Out(done@ + name@)]);
    report
}

// ---------------------------------------------------------------------------
// Laws
// ---------------------------------------------------------------------------

/// An agent is found by its name, the first that bears it; without a name the
/// first agent is taken, and there is none to take where none is configured.
pub proof fn law_an_agent_is_found_or_refused(agents: Seq<Seq<char>>, agent_id: Option<Seq<char>>)
    ensures
        agent_id is None ==> (agents.len() == 0 <==> agent_for(agents, agent_id) is Err),
        agent_id is None && agents.len() > 0 ==> agent_for(agents, agent_id) == Ok::<int, Seq<char>>(0),
        agent_id is Some ==> (agent_for(agents, agent_id) is Ok <==> agents.contains(agent_id->0)),
        agent_id is Some && agent_for(agents, agent_id) is Ok ==> {
            let k = agent_for(agents, agent_id)->Ok_0;
            &&& 0 <= k < agents.len()
            &&& agents[k] == agent_id->0
            &&& forall|i: int| 0 <= i < k ==> #[trigger] agents[i] != agent_id->0
        },
        agent_id is Some && agent_for(agents, agent_id) is Err ==> text::ends(
            agent_for(agents, agent_id)->Err_0,
            agent_id->0,
        ),
{
    if let Some(id) = agent_id {
        first_agent_at(agents, id);
        text::law_parts_occur("agent not found: "@, id, Seq::empty());
        if let Some(k) = agent_at(agents, id) {
            assert(agents[k] == id);
        }
    }
}

proof fn first_agent_at(agents: Seq<Seq<char>>, id: Seq<char>)
    ensures
        agent_at(agents, id) matches Some(k) ==> 0 <= k < agents.len() && agents[k] == id && forall|i: int|
            0 <= i < k ==> #[trigger] agents[i] != id,
        agent_at(agents, id) is None ==> !agents.contains(id),
    decreases agents.len(),
{
    if agents.len() > 0 {
        let front = agents.drop_last();
        first_agent_at(front, id);
        assert forall|i: int| 0 <= i < front.len() implies #[trigger] agents[i] == front[i] by {}
        if let Some(k) = agent_at(front, id) {
            assert(agents[k] == front[k]);
        } else if agents.last() != id && agents.contains(id) {
            let k = choose|k: int| 0 <= k < agents.len() && agents[k] == id;
            if k < front.len() {
                assert(front[k] == id);
            }
        }
    }
}

/// A skill is archived only from the workspace and only unpinned, and what is in
/// the way is told with its name.
pub proof fn law_only_unpinned_workspace_skills_are_archived(skill: Option<SkillSource>, pinned: bool, name: Seq<char>)
    ensures
        archive_refusal(skill, pinned, name) is None <==> skill == Some(SkillSource::Workspace) && !pinned,
        archive_refusal(skill, pinned, name) matches Some(why) ==> text::ends(why, name),
        skill is None ==> archive_refusal(skill, pinned, name) == Some("Skill not found: "@ + name),
        skill == Some(SkillSource::Workspace) && pinned ==> archive_refusal(skill, pinned, name) == Some(
            "Skill is pinned; unpin it before archiving: "@ + name,
        ),
{
    text::law_parts_occur("Skill not found: "@, name, Seq::empty());
    text::law_parts_occur("Only workspace skills can be archived: "@, name, Seq::empty());
    text::law_parts_occur("Skill is pinned; unpin it before archiving: "@, name, Seq::empty());
}

/// A skill without a row is not pinned, and a missing one has no source.
pub proof fn law_a_skill_without_a_row_is_not_pinned(record: Option<SkillUsageRecord>, skill: Option<&Skill>)
    ensures
        is_pinned(record) <==> record is Some && record->0.pinned,
        skill is Some ==> source_of(skill) == Some(skill->0.source),
        skill is None ==> source_of(skill) is None,
{
}

/// What was installed is counted and listed by name.
pub proof fn law_installed_skills_are_listed(names: Seq<Seq<char>>, k: int)
    ensures
        installed_lines(names).len() == names.len() + 1,
        installed_lines(names)[0] == LineModel::Out(
            "\nSuccessfully installed "@ + text::decimal(names.len()) + " skill(s):"@,
        ),
        0 <= k < names.len() ==> installed_lines(names)[k + 1] == LineModel::Out("  - "@ + names[k]),
{
}

/// Skills are listed one after the other, each with its description where it has
/// one.
pub proof fn law_skills_are_listed_one_by_one(first: Seq<SkillInfo>, second: Seq<SkillInfo>)
    ensures
        infos_lines(first + second) == infos_lines(first) + infos_lines(second),
        first.len() == 1 ==> infos_lines(first)[0] == LineModel::Out(
            "  "@ + first[0].name@ + " ("@ + first[0].source.name() + ")"@,
        ),
        first.len() == 1 && first[0].description@.len() > 0 ==> infos_lines(first).len() == 3 && infos_lines(first)[1]
            == LineModel::Out("    "@ + first[0].description@),
        first.len() == 1 && first[0].description@.len() == 0 ==> infos_lines(first).len() == 2,
        first.len() == 0 ==> list_lines(first) == seq![LineModel::Out("No skills installed"@)],
        first.len() > 0 ==> list_lines(first).subrange(1, list_lines(first).len() as int) == infos_lines(first),
    decreases second.len(),
{
    let all = first + second;
    if second.len() == 0 {
        assert(all =~= first);
        assert(infos_lines(second) =~= Seq::<LineModel>::empty());
    } else {
        assert(all.drop_last() =~= first + second.drop_last());
        assert(all.last() == second.last());
        law_skills_are_listed_one_by_one(first, second.drop_last());
    }
    assert(infos_lines(all) =~= infos_lines(first) + infos_lines(second));
    if first.len() == 1 {
        assert(first.last() == first[0]);
        assert(infos_lines(first.drop_last()) =~= Seq::<LineModel>::empty());
        assert(infos_lines(first) =~= info_lines(first[0]));
    }
    if first.len() > 0 {
        assert(list_lines(first).subrange(1, list_lines(first).len() as int) =~= infos_lines(first));
    }
}

/// A long text is shown by its beginning, with the number of characters that are
/// left out, and a short one whole.
pub proof fn law_a_preview_counts_what_it_leaves_out(content: Seq<char>)
    ensures
        content.len() <= PREVIEW_CHARS ==> content_lines(content).len() == 2 && content_lines(content)[1]
            == LineModel::Out(content),
        content.len() > PREVIEW_CHARS ==> {
            let lines = content_lines(content);
            &&& lines.len() == 3
            &&& lines[1] == LineModel::Out(content.take(PREVIEW_CHARS as int))
            &&& lines[2] == LineModel::Out(
                "\n... ("@ + text::decimal((content.len() - PREVIEW_CHARS) as nat) + " more characters)"@,
            )
        },
{
}

/// A skill is shown with its facts, its usage and its text, in this order.
pub proof fn law_a_shown_skill_tells_its_facts(skill: Skill, usage: KnownUsage)
    ensures
        skill_lines(skill, usage)[0] == LineModel::Out("Skill: "@ + skill.name@),
        skill_lines(skill, usage)[1] == LineModel::Out("Description: "@ + skill.description@),
        skill_lines(skill, usage)[2] == LineModel::Out("Source: "@ + skill.source.name()),
        skill_lines(skill, usage)[3] == LineModel::Out("Path: "@ + skill.file_path@),
        skill_lines(skill, usage).len() == 5 + usage_lines(usage).len() + content_lines(skill.content@).len(),
        usage is Absent ==> usage_lines(usage).len() == 0,
        usage matches KnownUsage::Record(record) ==> usage_lines(usage).len() == 5 && usage_lines(usage)[0]
            == LineModel::Out("Created by: "@ + record.created_by@) && usage_lines(usage)[1] == LineModel::Out(
            "State: "@ + record.state@,
        ),
{
}

} // verus!
