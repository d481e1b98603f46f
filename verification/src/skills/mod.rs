//! Skill loading and prompt injection.
//!
//! Skills are directories containing a SKILL.md file with YAML frontmatter
//! (name, description, metadata) and a markdown body with instructions.
//!
//! Skills come from three sources (later wins on name conflicts): built into
//! the binary, the instance directory, and the agent's workspace. The channel
//! sees a summary of available skills and delegates skill work to workers;
//! workers read the full content.
use vstd::prelude::*;
use crate::llm::history::copy_opt;
use crate::order;
use crate::order::Ranked;
use crate::paths;
use crate::skills::frontmatter::{Platform, SkillFrontmatter, SkillParseError, SkillText};
use crate::text;

pub mod archive;
pub mod builtin;
pub mod frontmatter;
pub mod usage;

verus! {

broadcast use vstd::seq::group_seq_axioms;

/// Character budget for skill descriptions in prompt indexes. Enforced on
/// create/edit paths; pre-existing skills render truncated instead of failing
/// to load.
pub const DESCRIPTION_BUDGET: usize = 80;

/// Where a skill was loaded from, used for precedence tracking.
#[derive(Debug, Clone, Copy, PartialEq, Eq, Structural)]
pub enum SkillSource {
    /// Compiled into the binary.
    Builtin,
    /// Instance-level `{instance_dir}/skills/`.
    Instance,
    /// Agent workspace `{workspace}/skills/`.
    Workspace,
}

impl SkillSource {
    /// The name of a source in listings.
    pub open spec fn name(self) -> Seq<char> {
        match self {
            SkillSource::Builtin => "builtin"@,
            SkillSource::Instance => "instance"@,
            SkillSource::Workspace => "workspace"@,
        }
    }

    /// The name of a source in listings.
    pub fn label(self) -> (label: &'static str)
        ensures
            label@ == self.name(),
    {
        match self {
            SkillSource::Builtin => "builtin",
            SkillSource::Instance => "instance",
            SkillSource::Workspace => "workspace",
        }
    }
}

/// A loaded skill definition.
#[derive(Debug)]
pub struct Skill {
    /// Skill name from frontmatter.
    pub name: String,
    /// Short description from frontmatter.
    pub description: String,
    /// Absolute path to the SKILL.md file.
    pub file_path: String,
    /// Directory containing the skill.
    pub base_dir: String,
    /// Full rendered content (frontmatter stripped, `{baseDir}` resolved).
    pub content: String,
    /// Where this skill was loaded from.
    pub source: SkillSource,
    /// GitHub `owner/repo` that this skill was installed from, if any.
    pub source_repo: Option<String>,
    /// Free-form tags from frontmatter.
    pub tags: Vec<String>,
    /// Names of related skills from frontmatter, advisory.
    pub related_skills: Vec<String>,
    /// Files under the skill's support subdirectories, relative to `base_dir`.
    pub linked_files: Vec<String>,
    /// Category derived from the directory path. Top-level skills get
    /// `"general"`; categorized skills get their parent directory name.
    pub category: String,
}

/// What a skill is.
pub struct SkillModel {
    pub name: Seq<char>,
    pub description: Seq<char>,
    pub file_path: Seq<char>,
    pub base_dir: Seq<char>,
    pub content: Seq<char>,
    pub source: SkillSource,
    pub source_repo: Option<Seq<char>>,
    pub tags: Seq<Seq<char>>,
    pub related_skills: Seq<Seq<char>>,
    pub linked_files: Seq<Seq<char>>,
    pub category: Seq<char>,
}

impl View for Skill {
    type V = SkillModel;

    open spec fn view(&self) -> SkillModel {
        SkillModel {
            name: self.name@,
            description: self.description@,
            file_path: self.file_path@,
            base_dir: self.base_dir@,
            content: self.content@,
            source: self.source,
            source_repo: text::opt_text(self.source_repo),
            tags: text::texts(self.tags@),
            related_skills: text::texts(self.related_skills@),
            linked_files: text::texts(self.linked_files@),
            category: self.category@,
        }
    }
}

// ---------------------------------------------------------------------------
// One skill
// ---------------------------------------------------------------------------

/// Where a skill file lies and what was found around it.
#[derive(Debug)]
pub struct SkillPlace {
    pub file_path: String,
    pub base_dir: String,
    /// The name of the directory, where it has one.
    pub dir_name: Option<String>,
    pub category: String,
    pub source: SkillSource,
    pub linked_files: Vec<String>,
}

/// Whether frontmatter gates a skill to other platforms than a host.
pub open spec fn gated(frontmatter: frontmatter::FrontmatterModel, host: Platform) -> bool {
    frontmatter.platforms matches Some(platforms) && !Platform::admits(platforms, host)
}

/// A text, or nothing where there is none.
pub open spec fn or_empty(text: Option<Seq<char>>) -> Seq<char> {
    match text {
        Some(text) => text,
        None => Seq::empty(),
    }
}

/// A list, or nothing where there is none.
pub open spec fn or_none(list: Option<Seq<Seq<char>>>) -> Seq<Seq<char>> {
    match list {
        Some(list) => list,
        None => Seq::empty(),
    }
}

/// The skill that a file at a place defines.
pub open spec fn placed_skill(
    frontmatter: frontmatter::FrontmatterModel,
    body: Seq<char>,
    place: SkillPlace,
) -> SkillModel {
    SkillModel {
        name: match frontmatter.name {
            Some(name) => name,
            None => match place.dir_name {
                Some(name) => name@,
                None => "unknown"@,
            },
        },
        description: or_empty(frontmatter.description),
        file_path: place.file_path@,
        base_dir: place.base_dir@,
        content: text::replaced(body, "{baseDir}"@, place.base_dir@),
        source: place.source,
        source_repo: frontmatter.source_repo,
        tags: or_none(frontmatter.tags),
        related_skills: or_none(frontmatter.related_skills),
        linked_files: text::texts(place.linked_files@),
        category: place.category@,
    }
}

pub(crate) fn list_or_none(list: Option<Vec<String>>) -> (r: Vec<String>)
    ensures
        text::texts(r@) == or_none(frontmatter::opt_texts(list)),
{
    match list {
        Some(list) => list,
        None => {
            let r: Vec<String> = Vec::new();
            assert(text::texts(r@) =~= Seq::<Seq<char>>::empty());
            r
        },
    }
}

pub(crate) fn text_or_empty(s: Option<String>) -> (r: String)
    ensures
        r@ == or_empty(text::opt_text(s)),
{
    match s {
        Some(s) => s,
        None => String::new(),
    }
}

pub(crate) fn gate(frontmatter: &SkillFrontmatter, host: Platform) -> (closed: bool)
    ensures
        closed == gated(frontmatter@, host),
{
    match &frontmatter.platforms {
        Some(platforms) => !Platform::list_matches_host(platforms, host),
        None => false,
    }
}

/// Defines the skill of a parsed file. Gives nothing where the skill declares
/// platforms that don't hold the host.
pub fn define_skill(frontmatter: SkillFrontmatter, body: String, place: SkillPlace, host: Platform) -> (skill: Option<
    Skill,
>)
    ensures
        match skill {
            Some(skill) => !gated(frontmatter@, host) && skill@ == placed_skill(frontmatter@, body@, place),
            None => gated(frontmatter@, host),
        },
{
    if gate(&frontmatter, host) {
        return None;
    }
    let name = match frontmatter.name {
        Some(name) => name,
        None => match place.dir_name {
            Some(name) => name,
            None => "unknown".to_owned(),
        },
    };
    proof {
        reveal_strlit("{baseDir}");
    }
    let content = text::replace(body.as_str(), "{baseDir}", place.base_dir.as_str());
    Some(
        Skill {
            name,
            description: text_or_empty(frontmatter.description),
            file_path: place.file_path,
            base_dir: place.base_dir,
            content,
            source: place.source,
            source_repo: frontmatter.source_repo,
            tags: list_or_none(frontmatter.tags),
            related_skills: list_or_none(frontmatter.related_skills),
            linked_files: place.linked_files,
            category: place.category,
        },
    )
}

/// What loading a skill file gives: a refusal, nothing where the skill is gated
/// to other platforms, or the skill.
pub open spec fn skill_from(
    parsed: Result<(frontmatter::FrontmatterModel, Seq<char>), frontmatter::RefusalModel>,
    place: SkillPlace,
    host: Platform,
) -> Result<Option<SkillModel>, frontmatter::RefusalModel> {
    match parsed {
        Err(refusal) => Err(refusal),
        Ok((head, body)) => if gated(head, host) {
            Ok(None)
        } else {
            Ok(Some(placed_skill(head, body, place)))
        },
    }
}

/// Loads a single skill from the text of its SKILL.md file.
pub fn load_skill(raw: SkillText, place: SkillPlace, host: Platform) -> (loaded: Result<Option<Skill>, SkillParseError>)
    ensures
        (match loaded {
            Err(error) => Err(error@),
            Ok(Some(skill)) => Ok(Some(skill@)),
            Ok(None) => Ok(None),
        }) == skill_from(raw.parses_to(), place, host),
{
    match frontmatter::parse_skill_markdown(raw.content.as_str(), raw.said) {
        Err(error) => Err(error),
        Ok((head, body)) => Ok(define_skill(head, body, place, host)),
    }
}

// ---------------------------------------------------------------------------
// Discovery
// ---------------------------------------------------------------------------

/// A SKILL.md file of a listed directory.
#[derive(Debug)]
pub struct SkillFile {
    /// Its text, where it can be read.
    pub raw: Option<SkillText>,
    pub file_path: String,
    /// Files under the support subdirectories.
    pub linked_files: Vec<String>,
}

/// An entry of a skills directory or of a category directory.
#[derive(Debug)]
pub struct DirEntry {
    pub name: String,
    pub path: String,
    pub is_dir: bool,
    /// The SKILL.md file of the directory.
    pub skill: Option<SkillFile>,
}

/// An entry of a skills directory, with what a category holds.
#[derive(Debug)]
pub struct TopEntry {
    pub entry: DirEntry,
    /// The text of `index.md`, where it is there and can be read.
    pub index: Option<SkillText>,
    /// The entries of the directory, where they can be listed.
    pub children: Vec<DirEntry>,
}

/// Whether an entry can be a skill or a category. Hidden directories
/// (`.archive`, `.snapshots`, `.git`, ...) are excluded from discovery.
pub open spec fn visible_dir(entry: DirEntry) -> bool {
    entry.is_dir && !text::begins(entry.name@, "."@)
}

/// The skill of an entry, where it is a directory in sight with a SKILL.md
/// file that loads on the host.
pub open spec fn entry_skill(entry: DirEntry, category: Seq<char>, source: SkillSource, host: Platform) -> Option<
    SkillModel,
> {
    match entry.skill {
        Some(file) => match file.raw {
            Some(raw) => if visible_dir(entry) {
                match raw.parses_to() {
                    Ok((head, body)) => if gated(head, host) {
                        None
                    } else {
                        Some(
                            SkillModel {
                                name: match head.name {
                                    Some(name) => name,
                                    None => entry.name@,
                                },
                                description: or_empty(head.description),
                                file_path: file.file_path@,
                                base_dir: entry.path@,
                                content: text::replaced(body, "{baseDir}"@, entry.path@),
                                source,
                                source_repo: head.source_repo,
                                tags: or_none(head.tags),
                                related_skills: or_none(head.related_skills),
                                linked_files: text::texts(file.linked_files@),
                                category,
                            },
                        )
                    },
                    Err(_) => None,
                }
            } else {
                None
            },
            None => None,
        },
        None => None,
    }
}

/// The skills of a category directory, in the order of its entries.
pub open spec fn category_skills(
    entries: Seq<DirEntry>,
    category: Seq<char>,
    source: SkillSource,
    host: Platform,
) -> Seq<SkillModel>
    decreases entries.len(),
{
    if entries.len() == 0 {
        Seq::empty()
    } else {
        let front = category_skills(entries.drop_last(), category, source, host);
        match entry_skill(entries.last(), category, source, host) {
            Some(skill) => front.push(skill),
            None => front,
        }
    }
}

/// The skills that an entry of a skills directory holds: its own, or those of
/// the category that it is.
pub open spec fn top_skills(top: TopEntry, source: SkillSource, host: Platform) -> Seq<SkillModel> {
    if !visible_dir(top.entry) {
        Seq::empty()
    } else if top.entry.skill is Some {
        match entry_skill(top.entry, "general"@, source, host) {
            Some(skill) => seq![skill],
            None => Seq::empty(),
        }
    } else {
        category_skills(top.children@, top.entry.name@, source, host)
    }
}

/// The skills of a skills directory.
pub open spec fn dir_skills(tops: Seq<TopEntry>, source: SkillSource, host: Platform) -> Seq<SkillModel>
    decreases tops.len(),
{
    if tops.len() == 0 {
        Seq::empty()
    } else {
        dir_skills(tops.drop_last(), source, host) + top_skills(tops.last(), source, host)
    }
}

/// The description of the category that an entry is, where it has one.
pub open spec fn index_text(top: TopEntry) -> Option<Seq<char>> {
    if !visible_dir(top.entry) || top.entry.skill is Some {
        None
    } else {
        match top.index {
            Some(raw) => match raw.parses_to() {
                Ok((head, _)) => head.description,
                Err(_) => None,
            },
            None => None,
        }
    }
}

/// The categories of a skills directory and their descriptions.
pub open spec fn dir_descriptions(tops: Seq<TopEntry>) -> Seq<(Seq<char>, Seq<char>)>
    decreases tops.len(),
{
    if tops.len() == 0 {
        Seq::empty()
    } else {
        let front = dir_descriptions(tops.drop_last());
        match index_text(tops.last()) {
            Some(description) => front.push((tops.last().entry.name@, description)),
            None => front,
        }
    }
}

/// What some skills are.
pub open spec fn skill_models(skills: Seq<Skill>) -> Seq<SkillModel> {
    skills.map_values(|skill: Skill| skill@)
}

/// What some category descriptions are.
pub open spec fn description_models(list: Seq<CategoryDescription>) -> Seq<(Seq<char>, Seq<char>)> {
    list.map_values(|one: CategoryDescription| (one.category@, one.description@))
}

fn is_visible(entry: &DirEntry) -> (visible: bool)
    ensures
        visible == visible_dir(*entry),
{
    entry.is_dir && !text::starts_with(entry.name.as_str(), ".")
}

/// Loads one skill directory. Gives nothing where the file cannot be loaded or
/// the skill is gated to other platforms.
fn load_entry(entry: DirEntry, category: &str, source: SkillSource, host: Platform) -> (skill: Option<Skill>)
    ensures
        (match skill {
            Some(skill) => Some(skill@),
            None => None,
        }) == entry_skill(entry, category@, source, host),
{
    if !is_visible(&entry) {
        return None;
    }
    match entry.skill {
        Some(file) => match file.raw {
            Some(raw) => {
                let place = SkillPlace {
                    file_path: file.file_path,
                    base_dir: entry.path,
                    dir_name: Some(entry.name),
                    category: category.to_owned(),
                    source,
                    linked_files: file.linked_files,
                };
                match load_skill(raw, place, host) {
                    Ok(skill) => skill,
                    Err(_) => None,
                }
            },
            None => None,
        },
        None => None,
    }
}

/// Loads a skill directory into `skills`, where it can be loaded.
fn load_skill_into(skills: &mut Vec<Skill>, entry: DirEntry, category: &str, source: SkillSource, host: Platform)
    ensures
        skill_models(final(skills)@) == (match entry_skill(entry, category@, source, host) {
            Some(skill) => skill_models(old(skills)@).push(skill),
            None => skill_models(old(skills)@),
        }),
{
    let ghost before = skills@;
    if let Some(skill) = load_entry(entry, category, source, host) {
        skills.push(skill);
        assert(skill_models(before.push(skill)) =~= skill_models(before).push(skill@));
    }
}

/// The description of a category, from the text of its `index.md`.
fn load_category_description(raw: SkillText) -> (description: Option<String>)
    ensures
        text::opt_text(description) == (match raw.parses_to() {
            Ok((head, _)) => head.description,
            Err(_) => None,
        }),
{
    match frontmatter::parse_skill_markdown(raw.content.as_str(), raw.said) {
        Ok((head, _)) => head.description,
        Err(_) => None,
    }
}

/// Loads all skills from a directory that was listed.
///
/// Each subdirectory containing a `SKILL.md` file is treated as a skill. A
/// subdirectory without one is treated as a category and scanned one level
/// deeper, so both `skills/{name}/SKILL.md` and
/// `skills/{category}/{name}/SKILL.md` load. Hidden directories (`.archive`,
/// `.snapshots`, `.git`, ...) are excluded from discovery.
///
/// Returns the loaded skills and any category descriptions found in
/// `index.md` files within category directories.
pub fn load_skills_from_dir(entries: Vec<TopEntry>, source: SkillSource, host: Platform) -> (loaded: LoadedSkills)
    ensures
        skill_models(loaded.skills@) == dir_skills(entries@, source, host),
        description_models(loaded.descriptions@) == dir_descriptions(entries@),
{
    let ghost all = entries@;
    let mut skills: Vec<Skill> = Vec::new();
    let mut descriptions: Vec<CategoryDescription> = Vec::new();
    let mut rest = entries;
    let ghost mut n: int = 0;
    assert(skill_models(skills@) =~= dir_skills(all.take(0), source, host));
    assert(description_models(descriptions@) =~= dir_descriptions(all.take(0)));
    while rest.len() > 0
        invariant
            0 <= n <= all.len(),
            rest@ == all.subrange(n, all.len() as int),
            skill_models(skills@) == dir_skills(all.take(n), source, host),
            description_models(descriptions@) == dir_descriptions(all.take(n)),
        decreases rest@.len(),
    {
        let top = rest.remove(0);
        let ghost whole = top;
        let ghost held = skill_models(skills@);
        assert(top == all[n]);
        assert(rest@ =~= all.subrange(n + 1, all.len() as int));
        assert(all.take(n + 1).drop_last() =~= all.take(n));
        if is_visible(&top.entry) {
            if top.entry.skill.is_some() {
                load_skill_into(&mut skills, top.entry, "general", source, host);
            } else {
                let name = top.entry.name;
                if let Some(raw) = top.index {
                    if let Some(description) = load_category_description(raw) {
                        let ghost before = descriptions@;
                        let one = CategoryDescription { category: name.clone(), description };
                        descriptions.push(one);
                        assert(description_models(before.push(one)) =~= description_models(before).push(
                            (one.category@, one.description@),
                        ));
                    }
                }
                let ghost children = top.children@;
                let mut inner = top.children;
                let ghost mut m: int = 0;
                assert(held + category_skills(children.take(0), name@, source, host) =~= held);
                while inner.len() > 0
                    invariant
                        0 <= m <= children.len(),
                        inner@ == children.subrange(m, children.len() as int),
                        skill_models(skills@) == held + category_skills(children.take(m), name@, source, host),
                    decreases inner@.len(),
                {
                    let child = inner.remove(0);
                    assert(child == children[m]);
                    assert(inner@ =~= children.subrange(m + 1, children.len() as int));
                    assert(children.take(m + 1).drop_last() =~= children.take(m));
                    load_skill_into(&mut skills, child, name.as_str(), source, host);
                    assert(skill_models(skills@) =~= held + category_skills(
                        children.take(m + 1),
                        name@,
                        source,
                        host,
                    ));
                    proof {
                        m = m + 1;
                    }
                }
                assert(children.take(m) =~= children);
            }
        }
        assert(skill_models(skills@) =~= held + top_skills(whole, source, host));
        proof {
            n = n + 1;
        }
    }
    assert(all.take(n) =~= all);
    LoadedSkills { skills, descriptions }
}

/// Support subdirectories inside a skill directory. Files under these are
/// excluded from skill discovery and surfaced as linked files, so a skill body
/// can point at deeper material without inflating the index.
pub open spec fn support_subdirs() -> Seq<Seq<char>> {
    seq!["references"@, "templates"@, "scripts"@, "assets"@]
}

/// The support directories of a skill directory.
pub fn support_dirs(base_dir: &str) -> (dirs: Vec<String>)
    ensures
        text::texts(dirs@) == support_subdirs().map_values(|name: Seq<char>| paths::joined(base_dir@, name)),
{
    broadcast use text::texts_push;

    let mut dirs: Vec<String> = Vec::new();
    assert(text::texts(dirs@) =~= Seq::<Seq<char>>::empty());
    dirs.push(paths::join(base_dir, "references"));
    dirs.push(paths::join(base_dir, "templates"));
    dirs.push(paths::join(base_dir, "scripts"));
    dirs.push(paths::join(base_dir, "assets"));
    assert(text::texts(dirs@) =~= support_subdirs().map_values(|name: Seq<char>| paths::joined(base_dir@, name)));
    dirs
}

/// The files that lie below a directory, as paths relative to it.
pub open spec fn relative_files(base_dir: Seq<char>, files: Seq<Seq<char>>) -> Seq<Seq<char>>
    decreases files.len(),
{
    if files.len() == 0 {
        Seq::empty()
    } else {
        let front = relative_files(base_dir, files.drop_last());
        match paths::below(base_dir, files.last()) {
            Some(file) => front.push(file),
            None => front,
        }
    }
}

/// Lists the files found under the skill's support subdirectories, relative to
/// `base_dir` and in order.
pub fn collect_linked_files(base_dir: &str, files: &Vec<String>) -> (linked: Vec<String>)
    ensures
        exists|list: Seq<String>|
            text::texts(list) == relative_files(base_dir@, text::texts(files@)) && linked@ == #[trigger] order::ranked(
                list,
            ),
{
    broadcast use text::texts_push;

    let ghost all = text::texts(files@);
    let mut list: Vec<String> = Vec::new();
    let mut k: usize = 0;
    assert(text::texts(list@) =~= relative_files(base_dir@, all.take(0)));
    while k < files.len()
        invariant
            all == text::texts(files@),
            k <= files@.len(),
            text::texts(list@) == relative_files(base_dir@, all.take(k as int)),
        decreases files@.len() - k,
    {
        assert(all.take(k + 1).drop_last() =~= all.take(k as int));
        assert(all.take(k + 1).last() == files@[k as int]@);
        if let Some(file) = paths::strip(base_dir, files[k].as_str()) {
            list.push(file);
        }
        k = k + 1;
    }
    assert(all.take(k as int) =~= all);
    order::rank(list)
}

impl Ranked for String {
    open spec fn outranks(&self, other: &Self) -> bool {
        text::precedes(self@, other@)
    }

    fn comes_first(&self, other: &Self) -> (yes: bool) {
        text::comes_before(self.as_str(), other.as_str())
    }
}

/// A skill in a hidden directory is never loaded.
pub proof fn law_hidden_directories_are_not_discovered(top: TopEntry, source: SkillSource, host: Platform)
    requires
        text::begins(top.entry.name@, "."@),
    ensures
        top_skills(top, source, host).len() == 0,
        index_text(top) is None,
{
}

// ---------------------------------------------------------------------------
// The set of skills
// ---------------------------------------------------------------------------

/// A skill under the name it is found by.
#[derive(Debug)]
pub struct KeyedSkill {
    /// The skill's name in lower case.
    pub key: String,
    pub skill: Skill,
}

/// A category and its description.
#[derive(Debug)]
pub struct CategoryDescription {
    pub category: String,
    pub description: String,
}

/// What was loaded from one source.
#[derive(Debug)]
pub struct LoadedSkills {
    pub skills: Vec<Skill>,
    pub descriptions: Vec<CategoryDescription>,
}

/// All skills loaded for an agent.
#[derive(Debug)]
pub struct SkillSet {
    /// Skills by name. Later sources override earlier ones.
    pub skills: Vec<KeyedSkill>,
    /// Category descriptions loaded from `index.md` files.
    pub category_descriptions: Vec<CategoryDescription>,
}

/// The first entry under a key.
pub open spec fn find(entries: Seq<KeyedSkill>, key: Seq<char>) -> Option<int>
    decreases entries.len(),
{
    if entries.len() == 0 {
        None
    } else {
        match find(entries.drop_last(), key) {
            Some(k) => Some(k),
            None => if entries.last().key@ == key {
                Some(entries.len() - 1)
            } else {
                None
            },
        }
    }
}

/// What the first entry under a key is.
pub proof fn find_first(entries: Seq<KeyedSkill>, key: Seq<char>)
    ensures
        match find(entries, key) {
            Some(k) => 0 <= k < entries.len() && entries[k].key@ == key && forall|i: int|
                0 <= i < k ==> (#[trigger] entries[i]).key@ != key,
            None => forall|i: int| 0 <= i < entries.len() ==> (#[trigger] entries[i]).key@ != key,
        },
    decreases entries.len(),
{
    if entries.len() > 0 {
        let front = entries.drop_last();
        find_first(front, key);
        assert forall|i: int| 0 <= i < front.len() implies front[i] == entries[i] by {}
    }
}

/// The skill under a key.
pub open spec fn skill_under(entries: Seq<KeyedSkill>, key: Seq<char>) -> Option<Skill> {
    match find(entries, key) {
        Some(k) => Some(entries[k].skill),
        None => None,
    }
}

/// Whether each skill stands under its own name, and no name twice.
pub open spec fn well_keyed(entries: Seq<KeyedSkill>) -> bool {
    &&& forall|k: int| 0 <= k < entries.len() ==> (#[trigger] entries[k]).key@ == text::lowercased(entries[k].skill.name@)
    &&& forall|i: int, k: int|
        0 <= i < k < entries.len() ==> (#[trigger] entries[i]).key@ != (#[trigger] entries[k]).key@
}

/// Whether entries are those before with a skill put under its name: in place
/// of the one that stood there, or behind all others.
pub open spec fn with_skill(before: Seq<KeyedSkill>, skill: Skill, after: Seq<KeyedSkill>) -> bool {
    let key = text::lowercased(skill.name@);
    match find(before, key) {
        Some(k) => after.len() == before.len() && after[k].key@ == key && after[k].skill == skill && forall|i: int|
            0 <= i < before.len() && i != k ==> #[trigger] after[i] == before[i],
        None => after.len() == before.len() + 1 && after.last().key@ == key && after.last().skill == skill && after.drop_last()
            == before,
    }
}

/// Whether a description of a category is listed.
pub open spec fn described(descriptions: Seq<CategoryDescription>, category: Seq<char>) -> bool {
    exists|k: int| 0 <= k < descriptions.len() && (#[trigger] descriptions[k]).category@ == category
}

/// Skill names are listed in the order of texts.
#[derive(Debug)]
pub struct ListedSkill {
    pub name: String,
    pub at: usize,
}

impl Ranked for ListedSkill {
    open spec fn outranks(&self, other: &Self) -> bool {
        text::precedes(self.name@, other.name@)
    }

    fn comes_first(&self, other: &Self) -> (yes: bool) {
        text::comes_before(self.name.as_str(), other.name.as_str())
    }
}

/// The skills with their places, as they stand.
pub open spec fn listed(entries: Seq<KeyedSkill>) -> Seq<ListedSkill> {
    Seq::new(entries.len(), |k: int| ListedSkill { name: entries[k].skill.name, at: k as usize })
}

/// The skills in the order they are listed in.
pub open spec fn listing(entries: Seq<KeyedSkill>) -> Seq<Skill> {
    let ordered = order::ranked(listed(entries));
    Seq::new(ordered.len(), |k: int| entries[ordered[k].at as int].skill)
}

proof fn ranked_members(list: Seq<ListedSkill>, n: int)
    requires
        forall|k: int| 0 <= k < list.len() ==> (#[trigger] list[k]).at < n,
    ensures
        order::ranked(list).len() == list.len(),
        forall|k: int| 0 <= k < list.len() ==> (#[trigger] order::ranked(list)[k]).at < n,
{
    order::law_ranking_is_a_rearrangement(list);
    let sorted = order::ranked(list);
    broadcast use vstd::seq_lib::group_to_multiset_ensures;

    assert forall|k: int| 0 <= k < sorted.len() implies (#[trigger] sorted[k]).at < n by {
        assert(sorted.to_multiset().contains(sorted[k]));
        assert(list.to_multiset().contains(sorted[k]));
        assert(list.contains(sorted[k]));
        let m = choose|m: int| 0 <= m < list.len() && list[m] == sorted[k];
        assert(list[m].at < n);
    }
}

/// A description as prompt indexes show it.
pub open spec fn indexed(description: Seq<char>) -> Seq<char> {
    if description.len() <= DESCRIPTION_BUDGET {
        description
    } else {
        description.take(DESCRIPTION_BUDGET - 3) + "..."@
    }
}

/// Truncates a description to the index budget (in characters) with an
/// ellipsis.
pub fn index_description(description: &str) -> (short: String)
    ensures
        short@ == indexed(description@),
{
    if description.unicode_len() <= DESCRIPTION_BUDGET {
        return description.to_owned();
    }
    let mut short = description.substring_char(0, DESCRIPTION_BUDGET - 3).to_owned();
    assert(short@ =~= description@.take(DESCRIPTION_BUDGET - 3));
    short.push_str("...");
    short
}

/// Public skill information for API responses.
#[derive(Debug)]
pub struct SkillInfo {
    pub name: String,
    pub description: String,
    pub file_path: String,
    pub base_dir: String,
    pub source: SkillSource,
    pub source_repo: Option<String>,
    /// Category derived from the directory path.
    pub category: String,
}

/// A skill as a prompt index lists it.
#[derive(Debug)]
pub struct PromptSkill {
    pub name: String,
    pub description: String,
    pub location: String,
    /// Whether the channel suggested the skill to the worker.
    pub suggested: bool,
    pub category: String,
}

/// Whether public information is that of a skill.
pub open spec fn informs(info: SkillInfo, skill: Skill) -> bool {
    &&& info.name == skill.name
    &&& info.description == skill.description
    &&& info.file_path == skill.file_path
    &&& info.base_dir == skill.base_dir
    &&& info.source == skill.source
    &&& info.source_repo == skill.source_repo
    &&& info.category == skill.category
}

/// Whether a line of a prompt index is that of a skill.
pub open spec fn indexes(line: PromptSkill, skill: Skill, suggested: bool) -> bool {
    &&& line.name == skill.name
    &&& line.description@ == indexed(skill.description@)
    &&& line.location == skill.file_path
    &&& line.suggested == suggested
    &&& line.category == skill.category
}

/// Whether a skill is among those that were suggested, case aside.
pub open spec fn suggests(suggested: Seq<String>, name: Seq<char>) -> bool {
    exists|k: int|
        0 <= k < suggested.len() && text::lowercased((#[trigger] suggested[k])@) == text::lowercased(name)
}

/// Why a skill cannot be removed.
#[derive(Debug, Clone, Copy, PartialEq, Eq, Structural)]
pub enum RemoveError {
    Builtin,
    Instance,
}

impl RemoveError {
    /// How the refusal reads.
    pub fn message(self, name: &str) -> (message: String)
        ensures
            message@ == (match self {
                RemoveError::Builtin => "cannot remove built-in skill '"@ + name@
                    + "'; built-in skills are compiled into the binary"@,
                RemoveError::Instance => "cannot remove instance-level skill '"@ + name@
                    + "' via the agent API; instance skills are shared across all agents and must be removed from the instance skills directory directly"@,
            }),
    {
        match self {
            RemoveError::Builtin => {
                let mut message = "cannot remove built-in skill '".to_owned();
                message.push_str(name);
                message.push_str("'; built-in skills are compiled into the binary");
                message
            },
            RemoveError::Instance => {
                let mut message = "cannot remove instance-level skill '".to_owned();
                message.push_str(name);
                message.push_str(
                    "' via the agent API; instance skills are shared across all agents and must be removed from the instance skills directory directly",
                );
                message
            },
        }
    }
}

impl Default for SkillSet {
    fn default() -> (set: Self)
        ensures
            set.skills@.len() == 0,
            set.category_descriptions@.len() == 0,
            set.well_formed(),
    {
        SkillSet { skills: Vec::new(), category_descriptions: Vec::new() }
    }
}

impl SkillSet {
    /// Whether each skill stands under its own name, and no name twice.
    pub open spec fn well_formed(self) -> bool {
        well_keyed(self.skills@)
    }

    /// Where a key stands.
    fn position(&self, key: &String) -> (at: Option<usize>)
        ensures
            match at {
                Some(at) => find(self.skills@, key@) == Some(at as int) && at < self.skills@.len(),
                None => find(self.skills@, key@) is None,
            },
    {
        proof {
            find_first(self.skills@, key@);
        }
        let mut k: usize = 0;
        while k < self.skills.len()
            invariant
                k <= self.skills@.len(),
                forall|i: int| 0 <= i < k ==> (#[trigger] self.skills@[i]).key@ != key@,
                match find(self.skills@, key@) {
                    Some(k) => 0 <= k < self.skills@.len() && self.skills@[k].key@ == key@ && forall|i: int|
                        0 <= i < k ==> (#[trigger] self.skills@[i]).key@ != key@,
                    None => forall|i: int| 0 <= i < self.skills@.len() ==> (#[trigger] self.skills@[i]).key@ != key@,
                },
            decreases self.skills@.len() - k,
        {
            if self.skills[k].key == *key {
                assert(self.skills@[k as int].key@ == key@);
                return Some(k);
            }
            k = k + 1;
        }
        None
    }

    /// Puts a skill under its name, in place of one that stood there.
    pub fn insert(&mut self, skill: Skill)
        ensures
            with_skill(old(self).skills@, skill, final(self).skills@),
            final(self).category_descriptions == old(self).category_descriptions,
            old(self).well_formed() ==> final(self).well_formed(),
    {
        let key = text::to_lowercase(skill.name.as_str());
        let ghost before = self.skills@;
        proof {
            find_first(before, key@);
        }
        match self.position(&key) {
            Some(at) => {
                self.skills.set(at, KeyedSkill { key, skill });
            },
            None => {
                self.skills.push(KeyedSkill { key, skill });
                assert(self.skills@.drop_last() =~= before);
            },
        }
    }

    /// Puts skills under their names, one after the other.
    pub fn insert_all(&mut self, skills: Vec<Skill>)
        ensures
            forall|key: Seq<char>| #[trigger]
                skill_under(final(self).skills@, key) == (match last_named(skills@, key) {
                    Some(skill) => Some(skill),
                    None => skill_under(old(self).skills@, key),
                }),
            final(self).category_descriptions == old(self).category_descriptions,
            old(self).well_formed() ==> final(self).well_formed(),
    {
        let ghost all = skills@;
        let ghost before = self.skills@;
        let ghost descriptions = self.category_descriptions;
        let ghost sound = self.well_formed();
        let mut rest = skills;
        let ghost mut n: int = 0;
        assert(all.take(0).len() == 0);
        while rest.len() > 0
            invariant
                0 <= n <= all.len(),
                rest@ == all.subrange(n, all.len() as int),
                self.category_descriptions == descriptions,
                sound ==> self.well_formed(),
                forall|key: Seq<char>| #[trigger]
                    skill_under(self.skills@, key) == (match last_named(all.take(n), key) {
                        Some(skill) => Some(skill),
                        None => skill_under(before, key),
                    }),
            decreases rest@.len(),
        {
            let skill = rest.remove(0);
            assert(skill == all[n]);
            assert(rest@ =~= all.subrange(n + 1, all.len() as int));
            assert(all.take(n + 1).drop_last() =~= all.take(n));
            let ghost held = self.skills@;
            self.insert(skill);
            proof {
                assert forall|key: Seq<char>| #[trigger] skill_under(self.skills@, key) == (if key
                    == text::lowercased(skill.name@) {
                    Some(skill)
                } else {
                    skill_under(held, key)
                }) by {
                    law_insert_changes_one_name(held, skill, self.skills@, key);
                }
                n = n + 1;
            }
        }
        assert(all.take(n) =~= all);
    }

    /// Adds the descriptions of categories that have none yet.
    pub fn describe(&mut self, descriptions: Vec<CategoryDescription>)
        ensures
            final(self).skills == old(self).skills,
            described_after(
                old(self).category_descriptions@,
                descriptions@,
                final(self).category_descriptions@,
            ),
    {
        let ghost all = descriptions@;
        let ghost before = self.category_descriptions@;
        let mut rest = descriptions;
        let ghost mut n: int = 0;
        assert(all.take(0).len() == 0);
        while rest.len() > 0
            invariant
                0 <= n <= all.len(),
                self.skills == old(self).skills,
                rest@ == all.subrange(n, all.len() as int),
                described_after(before, all.take(n), self.category_descriptions@),
            decreases rest@.len(),
        {
            let next = rest.remove(0);
            assert(next == all[n]);
            assert(rest@ =~= all.subrange(n + 1, all.len() as int));
            assert(all.take(n + 1).drop_last() =~= all.take(n));
            let ghost held = self.category_descriptions@;
            let mut found = false;
            let mut k: usize = 0;
            while k < self.category_descriptions.len() && !found
                invariant
                    self.category_descriptions@ == held,
                    k <= held.len(),
                    found ==> described(held, next.category@),
                    !found ==> forall|i: int| 0 <= i < k ==> (#[trigger] held[i]).category@ != next.category@,
                decreases held.len() - k,
            {
                if self.category_descriptions[k].category == next.category {
                    assert(held[k as int].category@ == next.category@);
                    found = true;
                }
                k = k + 1;
            }
            if !found {
                self.category_descriptions.push(next);
                assert(self.category_descriptions@.drop_last() =~= held);
            }
            proof {
                n = n + 1;
            }
        }
        assert(all.take(n) =~= all);
    }

    /// Loads skills from builtin, instance, and workspace sources.
    ///
    /// Precedence: Builtin < Instance < Workspace (later wins on name
    /// conflicts). A source that could not be read gives nothing.
    pub fn load(builtin: Vec<Skill>, instance: Option<LoadedSkills>, workspace: Option<LoadedSkills>) -> (set: Self)
        ensures
            set.well_formed(),
            forall|key: Seq<char>| #[trigger]
                skill_under(set.skills@, key) == (match last_named(loaded_from(workspace), key) {
                    Some(skill) => Some(skill),
                    None => match last_named(loaded_from(instance), key) {
                        Some(skill) => Some(skill),
                        None => last_named(builtin@, key),
                    },
                }),
            exists|middle: Seq<CategoryDescription>|
                described_after(Seq::empty(), descriptions_from(instance), middle) && #[trigger] described_after(
                    middle,
                    descriptions_from(workspace),
                    set.category_descriptions@,
                ),
    {
        let mut set = SkillSet::default();
        assert(set.category_descriptions@ =~= Seq::<CategoryDescription>::empty());
        set.insert_all(builtin);
        let ghost one = set.skills@;
        assert(forall|key: Seq<char>| last_named(Seq::<Skill>::empty(), key) is None);
        if let Some(loaded) = instance {
            set.insert_all(loaded.skills);
            set.describe(loaded.descriptions);
        }
        let ghost middle = set.category_descriptions@;
        if let Some(loaded) = workspace {
            set.insert_all(loaded.skills);
            set.describe(loaded.descriptions);
        }
        assert(described_after(middle, descriptions_from(workspace), set.category_descriptions@));
        set
    }

    /// Gets a skill by name (case-insensitive).
    pub fn get(&self, name: &str) -> (skill: Option<&Skill>)
        ensures
            match skill {
                Some(skill) => skill_under(self.skills@, text::lowercased(name@)) == Some(*skill),
                None => skill_under(self.skills@, text::lowercased(name@)) is None,
            },
    {
        let key = text::to_lowercase(name);
        match self.position(&key) {
            Some(at) => Some(&self.skills[at].skill),
            None => None,
        }
    }

    /// All loaded skills.
    pub fn iter(&self) -> (all: Vec<&Skill>)
        ensures
            all@.len() == self.skills@.len(),
            forall|k: int| 0 <= k < all@.len() ==> *(#[trigger] all@[k]) == self.skills@[k].skill,
    {
        let mut all: Vec<&Skill> = Vec::new();
        let mut k: usize = 0;
        while k < self.skills.len()
            invariant
                k <= self.skills@.len(),
                all@.len() == k,
                forall|i: int| 0 <= i < k ==> *(#[trigger] all@[i]) == self.skills@[i].skill,
            decreases self.skills@.len() - k,
        {
            all.push(&self.skills[k].skill);
            k = k + 1;
        }
        all
    }

    /// Number of loaded skills.
    pub fn len(&self) -> (len: usize)
        ensures
            len == self.skills@.len(),
    {
        self.skills.len()
    }

    /// Whether no skills are loaded.
    pub fn is_empty(&self) -> (empty: bool)
        ensures
            empty == (self.skills@.len() == 0),
    {
        self.skills.len() == 0
    }

    /// The skills in the order they are listed in.
    fn in_order(&self) -> (all: Vec<&Skill>)
        ensures
            all@.len() == self.skills@.len(),
            listing(self.skills@).len() == self.skills@.len(),
            forall|k: int| 0 <= k < all@.len() ==> *(#[trigger] all@[k]) == listing(self.skills@)[k],
    {
        let mut names: Vec<ListedSkill> = Vec::new();
        let mut k: usize = 0;
        while k < self.skills.len()
            invariant
                k <= self.skills@.len(),
                names@ == listed(self.skills@).take(k as int),
            decreases self.skills@.len() - k,
        {
            let name = ListedSkill { name: self.skills[k].skill.name.clone(), at: k };
            assert(name == listed(self.skills@)[k as int]);
            assert(listed(self.skills@).take(k + 1) =~= listed(self.skills@).take(k as int).push(name));
            names.push(name);
            k = k + 1;
        }
        assert(names@ =~= listed(self.skills@));
        proof {
            ranked_members(names@, self.skills@.len() as int);
        }
        let ordered = order::rank(names);
        let mut all: Vec<&Skill> = Vec::new();
        let mut i: usize = 0;
        while i < ordered.len()
            invariant
                ordered@ == order::ranked(listed(self.skills@)),
                ordered@.len() == self.skills@.len(),
                forall|m: int| 0 <= m < ordered@.len() ==> (#[trigger] ordered@[m]).at < self.skills@.len(),
                i <= ordered@.len(),
                all@.len() == i,
                forall|m: int| 0 <= m < i ==> *(#[trigger] all@[m]) == self.skills@[ordered@[m].at as int].skill,
            decreases ordered@.len() - i,
        {
            assert(ordered@[i as int].at < self.skills@.len());
            all.push(&self.skills[ordered[i].at].skill);
            i = i + 1;
        }
        all
    }

    /// Lists all loaded skills with their metadata, by name.
    pub fn list(&self) -> (infos: Vec<SkillInfo>)
        ensures
            infos@.len() == self.skills@.len(),
            listing(self.skills@).len() == self.skills@.len(),
            forall|k: int| 0 <= k < infos@.len() ==> informs(#[trigger] infos@[k], listing(self.skills@)[k]),
    {
        let all = self.in_order();
        let mut infos: Vec<SkillInfo> = Vec::new();
        let mut k: usize = 0;
        while k < all.len()
            invariant
                all@.len() == self.skills@.len(),
                forall|m: int| 0 <= m < all@.len() ==> *(#[trigger] all@[m]) == listing(self.skills@)[m],
                k <= all@.len(),
                infos@.len() == k,
                forall|m: int| 0 <= m < k ==> informs(#[trigger] infos@[m], listing(self.skills@)[m]),
            decreases all@.len() - k,
        {
            let skill: &Skill = all[k];
            assert(*all@[k as int] == listing(self.skills@)[k as int]);
            infos.push(
                SkillInfo {
                    name: skill.name.clone(),
                    description: skill.description.clone(),
                    file_path: skill.file_path.clone(),
                    base_dir: skill.base_dir.clone(),
                    source: skill.source,
                    source_repo: copy_opt(&skill.source_repo),
                    category: skill.category.clone(),
                },
            );
            k = k + 1;
        }
        infos
    }

    /// The lines of a prompt index, by name, with the suggested skills flagged.
    fn index(&self, suggested: &Vec<String>) -> (lines: Vec<PromptSkill>)
        ensures
            lines@.len() == self.skills@.len(),
            listing(self.skills@).len() == self.skills@.len(),
            forall|k: int|
                0 <= k < lines@.len() ==> indexes(
                    #[trigger] lines@[k],
                    listing(self.skills@)[k],
                    suggests(suggested@, listing(self.skills@)[k].name@),
                ),
    {
        let all = self.in_order();
        let mut lines: Vec<PromptSkill> = Vec::new();
        let mut k: usize = 0;
        while k < all.len()
            invariant
                all@.len() == self.skills@.len(),
                forall|m: int| 0 <= m < all@.len() ==> *(#[trigger] all@[m]) == listing(self.skills@)[m],
                k <= all@.len(),
                lines@.len() == k,
                forall|m: int|
                    0 <= m < k ==> indexes(
                        #[trigger] lines@[m],
                        listing(self.skills@)[m],
                        suggests(suggested@, listing(self.skills@)[m].name@),
                    ),
            decreases all@.len() - k,
        {
            let skill: &Skill = all[k];
            assert(*all@[k as int] == listing(self.skills@)[k as int]);
            let flagged = is_suggested(suggested, skill.name.as_str());
            lines.push(
                PromptSkill {
                    name: skill.name.clone(),
                    description: index_description(skill.description.as_str()),
                    location: skill.file_path.clone(),
                    suggested: flagged,
                    category: skill.category.clone(),
                },
            );
            k = k + 1;
        }
        lines
    }

    /// The skills summary for injection into the channel system prompt; empty
    /// where there is nothing to render.
    ///
    /// The channel sees skill names and descriptions but is instructed to
    /// delegate actual skill execution to workers.
    pub fn render_channel_prompt(&self) -> (lines: Vec<PromptSkill>)
        ensures
            lines@.len() == self.skills@.len(),
            listing(self.skills@).len() == self.skills@.len(),
            forall|k: int|
                0 <= k < lines@.len() ==> indexes(#[trigger] lines@[k], listing(self.skills@)[k], false),
    {
        let nobody: Vec<String> = Vec::new();
        self.index(&nobody)
    }

    /// The skills listing for injection into a branch system prompt.
    ///
    /// Branches see the same index as channels but read skills directly, or
    /// pass names to workers they spawn.
    pub fn render_branch_skills(&self) -> (lines: Vec<PromptSkill>)
        ensures
            lines@.len() == self.skills@.len(),
            listing(self.skills@).len() == self.skills@.len(),
            forall|k: int|
                0 <= k < lines@.len() ==> indexes(#[trigger] lines@[k], listing(self.skills@)[k], false),
    {
        let nobody: Vec<String> = Vec::new();
        self.index(&nobody)
    }

    /// The skills listing for injection into a worker system prompt.
    ///
    /// Workers see all available skills with any channel-suggested skills
    /// flagged. They decide which skills are relevant.
    pub fn render_worker_skills(&self, suggested: &Vec<String>) -> (lines: Vec<PromptSkill>)
        ensures
            lines@.len() == self.skills@.len(),
            listing(self.skills@).len() == self.skills@.len(),
            forall|k: int|
                0 <= k < lines@.len() ==> indexes(
                    #[trigger] lines@[k],
                    listing(self.skills@)[k],
                    suggests(suggested@, listing(self.skills@)[k].name@),
                ),
    {
        self.index(suggested)
    }

    /// Removes a skill by name.
    ///
    /// Only workspace-level skills can be removed. Built-in and instance-level
    /// skills cannot be deleted through the per-agent API. Returns the base
    /// directory if the skill was found and removed.
    pub fn remove(&mut self, name: &str) -> (removed: Result<Option<String>, RemoveError>)
        ensures
            final(self).category_descriptions == old(self).category_descriptions,
            match find(old(self).skills@, text::lowercased(name@)) {
                None => removed matches Ok(None) && final(self).skills@ == old(self).skills@,
                Some(k) => {
                    let skill = old(self).skills@[k].skill;
                    match skill.source {
                        SkillSource::Builtin => removed == Err::<Option<String>, RemoveError>(RemoveError::Builtin)
                            && final(self).skills@ == old(self).skills@,
                        SkillSource::Instance => removed == Err::<Option<String>, RemoveError>(
                            RemoveError::Instance,
                        ) && final(self).skills@ == old(self).skills@,
                        SkillSource::Workspace => removed == Ok::<Option<String>, RemoveError>(
                            Some(skill.base_dir),
                        ) && final(self).skills@ == old(self).skills@.remove(k),
                    }
                },
            },
            old(self).well_formed() ==> final(self).well_formed(),
    {
        let key = text::to_lowercase(name);
        let at: usize = match self.position(&key) {
            Some(at) => at,
            None => {
                return Ok(None);
            },
        };
        if self.skills[at].skill.source == SkillSource::Builtin {
            return Err(RemoveError::Builtin);
        }
        if self.skills[at].skill.source == SkillSource::Instance {
            return Err(RemoveError::Instance);
        }
        let ghost before = self.skills@;
        let gone = self.skills.remove(at);
        proof {
            if well_keyed(before) {
                let after = before.remove(at as int);
                assert forall|i: int, k: int| 0 <= i < k < after.len() implies (#[trigger] after[i]).key@ != (
                #[trigger] after[k]).key@ by {
                    let a = if i < at { i } else { i + 1 };
                    let b = if k < at { k } else { k + 1 };
                    assert(after[i] == before[a] && after[k] == before[b]);
                }
            }
        }
        Ok(Some(gone.skill.base_dir))
    }
}

/// Whether a skill is among those that were suggested, case aside.
fn is_suggested(suggested: &Vec<String>, name: &str) -> (yes: bool)
    ensures
        yes == suggests(suggested@, name@),
{
    let wanted = text::to_lowercase(name);
    let mut k: usize = 0;
    while k < suggested.len()
        invariant
            wanted@ == text::lowercased(name@),
            k <= suggested@.len(),
            forall|i: int| 0 <= i < k ==> text::lowercased((#[trigger] suggested@[i])@) != wanted@,
        decreases suggested@.len() - k,
    {
        let lower = text::to_lowercase(suggested[k].as_str());
        if lower == wanted {
            assert(text::lowercased(suggested@[k as int]@) == wanted@);
            return true;
        }
        k = k + 1;
    }
    false
}

/// The last of some skills that goes by a name.
pub open spec fn last_named(skills: Seq<Skill>, key: Seq<char>) -> Option<Skill>
    decreases skills.len(),
{
    if skills.len() == 0 {
        None
    } else if text::lowercased(skills.last().name@) == key {
        Some(skills.last())
    } else {
        last_named(skills.drop_last(), key)
    }
}

/// The skills of a source that could be read.
pub open spec fn loaded_from(loaded: Option<LoadedSkills>) -> Seq<Skill> {
    match loaded {
        Some(loaded) => loaded.skills@,
        None => Seq::empty(),
    }
}

/// The category descriptions of a source that could be read.
pub open spec fn descriptions_from(loaded: Option<LoadedSkills>) -> Seq<CategoryDescription> {
    match loaded {
        Some(loaded) => loaded.descriptions@,
        None => Seq::empty(),
    }
}

/// Whether descriptions are those before with the ones of categories that had
/// none.
pub open spec fn described_after(
    before: Seq<CategoryDescription>,
    added: Seq<CategoryDescription>,
    after: Seq<CategoryDescription>,
) -> bool
    decreases added.len(),
{
    if added.len() == 0 {
        after == before
    } else if after.len() > 0 && after.last() == added.last() && described_after(
        before,
        added.drop_last(),
        after.drop_last(),
    ) && !described(after.drop_last(), added.last().category@) {
        true
    } else {
        described_after(before, added.drop_last(), after) && described(after, added.last().category@)
    }
}

// ---------------------------------------------------------------------------
// Laws
// ---------------------------------------------------------------------------

/// Putting a skill under its name changes what is found under that name, and
/// under no other.
pub proof fn law_insert_changes_one_name(
    before: Seq<KeyedSkill>,
    skill: Skill,
    after: Seq<KeyedSkill>,
    key: Seq<char>,
)
    requires
        with_skill(before, skill, after),
    ensures
        skill_under(after, key) == (if key == text::lowercased(skill.name@) {
            Some(skill)
        } else {
            skill_under(before, key)
        }),
{
    let own = text::lowercased(skill.name@);
    find_first(before, own);
    find_first(before, key);
    find_first(after, own);
    find_first(after, key);
    match find(before, own) {
        Some(k) => {
            assert forall|i: int| 0 <= i < before.len() implies (#[trigger] after[i]).key@ == before[i].key@ by {
                if i == k {
                    assert(before[k].key@ == own);
                }
            }
            if let Some(i) = find(before, key) {
                assert(after[i].key@ == before[i].key@);
            }
            if let Some(i) = find(after, key) {
                assert(after[i].key@ == before[i].key@);
            }
        },
        None => {
            assert forall|i: int| 0 <= i < before.len() implies #[trigger] after[i] == before[i] by {
                assert(after.drop_last()[i] == before[i]);
            }
            if let Some(i) = find(before, key) {
                assert(after[i] == before[i]);
            }
            if let Some(i) = find(after, key) {
                if i < before.len() {
                    assert(after[i] == before[i]);
                }
            }
        },
    }
}

/// A workspace skill hides the instance and built-in skills of its name, and
/// an instance skill hides the built-in one.
pub proof fn law_later_sources_win(
    builtin: Seq<Skill>,
    instance: Seq<Skill>,
    workspace: Seq<Skill>,
    entries: Seq<KeyedSkill>,
    key: Seq<char>,
)
    requires
        skill_under(entries, key) == (match last_named(workspace, key) {
            Some(skill) => Some(skill),
            None => match last_named(instance, key) {
                Some(skill) => Some(skill),
                None => last_named(builtin, key),
            },
        }),
    ensures
        last_named(workspace, key) is Some ==> skill_under(entries, key) == last_named(workspace, key),
        last_named(workspace, key) is None && last_named(instance, key) is Some ==> skill_under(entries, key)
            == last_named(instance, key),
{
}

/// A description in an index never exceeds the budget.
pub proof fn law_index_descriptions_stay_within_budget(description: Seq<char>)
    ensures
        indexed(description).len() <= DESCRIPTION_BUDGET,
{
    reveal_strlit("...");
}

/// The sources of skills have names of their own.
pub proof fn law_sources_are_told_apart(one: SkillSource, other: SkillSource)
    ensures
        one.name() == other.name() ==> one == other,
{
    reveal_strlit("builtin");
    reveal_strlit("instance");
    reveal_strlit("workspace");
    assert("builtin"@[0] != "instance"@[0] && "builtin"@[0] != "workspace"@[0] && "instance"@[0] != "workspace"@[0]);
}

/// A skill is left out exactly where its platforms leave the host out; else it
/// is what its head says, at the place it was found.
pub proof fn law_a_skill_is_what_its_head_says(
    head: frontmatter::FrontmatterModel,
    body: Seq<char>,
    place: SkillPlace,
    host: Platform,
)
    ensures
        ({
            let loaded = skill_from(Ok((head, body)), place, host);
            &&& loaded is Ok
            &&& loaded->Ok_0 is None <==> head.platforms is Some && !Platform::admits(head.platforms->0, host)
            &&& loaded->Ok_0 matches Some(skill) ==> {
                &&& head.name is Some ==> skill.name == head.name->0
                &&& head.name is None && place.dir_name is Some ==> skill.name == place.dir_name->0@
                &&& head.description is Some ==> skill.description == head.description->0
                &&& head.description is None ==> skill.description.len() == 0
                &&& head.tags is Some ==> skill.tags == head.tags->0
                &&& head.tags is None ==> skill.tags.len() == 0
                &&& head.related_skills is Some ==> skill.related_skills == head.related_skills->0
                &&& head.related_skills is None ==> skill.related_skills.len() == 0
                &&& skill.source_repo == head.source_repo
                &&& skill.source == place.source
                &&& skill.category == place.category@
                &&& skill.file_path == place.file_path@
                &&& skill.base_dir == place.base_dir@
                &&& skill.linked_files == text::texts(place.linked_files@)
                &&& !text::occurs_in(body, "{baseDir}"@) ==> skill.content == body
                &&& body == "{baseDir}"@ ==> skill.content == skill.base_dir
            }
        }),
{
    reveal_strlit("{baseDir}");
    text::law_replacing_swaps_the_pattern("{baseDir}"@, place.base_dir@, body);
}

/// A directory holds a skill where it is visible and its file can be read and
/// parsed, and only there; the skill bears the directory's place.
pub proof fn law_a_directory_holds_its_own_skill(
    entry: DirEntry,
    category: Seq<char>,
    source: SkillSource,
    host: Platform,
)
    ensures
        entry_skill(entry, category, source, host) is Some <==> {
            &&& entry.is_dir
            &&& !text::begins(entry.name@, "."@)
            &&& entry.skill is Some
            &&& entry.skill->0.raw is Some
            &&& entry.skill->0.raw->0.parses_to() is Ok
            &&& !gated(entry.skill->0.raw->0.parses_to()->Ok_0.0, host)
        },
        entry_skill(entry, category, source, host) matches Some(skill) ==> {
            let (head, body) = entry.skill->0.raw->0.parses_to()->Ok_0;
            &&& skill.category == category
            &&& skill.source == source
            &&& skill.base_dir == entry.path@
            &&& skill.file_path == entry.skill->0.file_path@
            &&& skill.linked_files == text::texts(entry.skill->0.linked_files@)
            &&& head.name is Some ==> skill.name == head.name->0
            &&& head.name is None ==> skill.name == entry.name@
            &&& head.description is Some ==> skill.description == head.description->0
            &&& head.description is None ==> skill.description.len() == 0
            &&& skill.source_repo == head.source_repo
            &&& head.tags is Some ==> skill.tags == head.tags->0
            &&& head.related_skills is Some ==> skill.related_skills == head.related_skills->0
            &&& !text::occurs_in(body, "{baseDir}"@) ==> skill.content == body
        },
{
    if let Some(skill) = entry_skill(entry, category, source, host) {
        let (head, body) = entry.skill->0.raw->0.parses_to()->Ok_0;
        reveal_strlit("{baseDir}");
        text::law_replacing_swaps_the_pattern("{baseDir}"@, entry.path@, body);
    }
}

/// A category is read entry by entry, and what one entry holds does not depend
/// on the others.
pub proof fn law_a_category_is_read_entry_by_entry(
    first: Seq<DirEntry>,
    second: Seq<DirEntry>,
    category: Seq<char>,
    source: SkillSource,
    host: Platform,
)
    ensures
        category_skills(first + second, category, source, host) == category_skills(first, category, source, host)
            + category_skills(second, category, source, host),
    decreases second.len(),
{
    let all = first + second;
    let one = category_skills(first, category, source, host);
    let two = category_skills(second, category, source, host);
    if second.len() == 0 {
        assert(all =~= first);
        assert(two =~= Seq::<SkillModel>::empty());
    } else {
        assert(all.drop_last() =~= first + second.drop_last());
        assert(all.last() == second.last());
        law_a_category_is_read_entry_by_entry(first, second.drop_last(), category, source, host);
    }
    assert(category_skills(all, category, source, host) =~= one + two);
}

/// A category with one entry holds that entry's skill, if it has one.
pub proof fn law_one_entry_gives_one_skill(
    entry: DirEntry,
    category: Seq<char>,
    source: SkillSource,
    host: Platform,
)
    ensures
        ({
            let held = category_skills(seq![entry], category, source, host);
            match entry_skill(entry, category, source, host) {
                Some(skill) => held == seq![skill],
                None => held.len() == 0,
            }
        }),
{
    assert(seq![entry].drop_last() =~= Seq::<DirEntry>::empty());
    assert(category_skills(seq![entry].drop_last(), category, source, host) =~= Seq::<SkillModel>::empty());
    if let Some(skill) = entry_skill(entry, category, source, host) {
        assert(category_skills(seq![entry], category, source, host) =~= seq![skill]);
    }
}

/// A directory of skills is read top by top, in order.
pub proof fn law_a_directory_is_read_top_by_top(
    first: Seq<TopEntry>,
    second: Seq<TopEntry>,
    source: SkillSource,
    host: Platform,
)
    ensures
        dir_skills(first + second, source, host) == dir_skills(first, source, host) + dir_skills(second, source, host),
        dir_descriptions(first + second) == dir_descriptions(first) + dir_descriptions(second),
    decreases second.len(),
{
    let all = first + second;
    if second.len() == 0 {
        assert(all =~= first);
        assert(dir_skills(second, source, host) =~= Seq::<SkillModel>::empty());
        assert(dir_descriptions(second) =~= Seq::<(Seq<char>, Seq<char>)>::empty());
    } else {
        assert(all.drop_last() =~= first + second.drop_last());
        assert(all.last() == second.last());
        law_a_directory_is_read_top_by_top(first, second.drop_last(), source, host);
    }
    assert(dir_skills(all, source, host) =~= dir_skills(first, source, host) + dir_skills(second, source, host));
    assert(dir_descriptions(all) =~= dir_descriptions(first) + dir_descriptions(second));
}

/// A directory at the top is a skill of the general category where it has a
/// skill file, and else a category of its own name; only a category has a
/// description.
pub proof fn law_a_top_is_a_skill_or_a_category(top: TopEntry, source: SkillSource, host: Platform)
    ensures
        top.entry.skill is Some ==> top_skills(top, source, host).len() <= 1 && index_text(top) is None,
        top.entry.skill is Some && top_skills(top, source, host).len() == 1 ==> Some(top_skills(top, source, host)[0])
            == entry_skill(top.entry, "general"@, source, host),
        top.entry.skill is Some && entry_skill(top.entry, "general"@, source, host) is Some ==> top_skills(
            top,
            source,
            host,
        ).len() == 1,
        top.entry.skill is None && visible_dir(top.entry) ==> top_skills(top, source, host) == category_skills(
            top.children@,
            top.entry.name@,
            source,
            host,
        ),
        dir_skills(seq![top], source, host) == top_skills(top, source, host),
        !top.entry.is_dir ==> top_skills(top, source, host).len() == 0 && index_text(top) is None,
        top.entry.skill is None && visible_dir(top.entry) && top.index is Some && top.index->0.parses_to() is Ok
            ==> index_text(top) == top.index->0.parses_to()->Ok_0.0.description,
        index_text(top) is Some ==> dir_descriptions(seq![top]) == seq![(top.entry.name@, index_text(top)->0)],
        index_text(top) is None ==> dir_descriptions(seq![top]).len() == 0,
{
    assert(seq![top].drop_last() =~= Seq::<TopEntry>::empty());
    assert(dir_skills(seq![top].drop_last(), source, host) =~= Seq::<SkillModel>::empty());
    assert(dir_skills(seq![top], source, host) =~= top_skills(top, source, host));
    let before = dir_descriptions(seq![top].drop_last());
    assert(before =~= Seq::<(Seq<char>, Seq<char>)>::empty());
    if let Some(told) = index_text(top) {
        assert(dir_descriptions(seq![top]) =~= seq![(top.entry.name@, told)]);
    }
}

/// A skill's files are listed from its directory on, in order, and a file
/// elsewhere is left out.
pub proof fn law_files_are_listed_from_their_directory(base_dir: Seq<char>, first: Seq<Seq<char>>, second: Seq<Seq<char>>)
    ensures
        relative_files(base_dir, first + second) == relative_files(base_dir, first) + relative_files(base_dir, second),
        first.len() == 1 ==> (match paths::below(base_dir, first[0]) {
            Some(file) => relative_files(base_dir, first) == seq![file],
            None => relative_files(base_dir, first).len() == 0,
        }),
    decreases second.len(),
{
    let all = first + second;
    if second.len() == 0 {
        assert(all =~= first);
        assert(relative_files(base_dir, second) =~= Seq::<Seq<char>>::empty());
    } else {
        assert(all.drop_last() =~= first + second.drop_last());
        assert(all.last() == second.last());
        law_files_are_listed_from_their_directory(base_dir, first, second.drop_last());
    }
    assert(relative_files(base_dir, all) =~= relative_files(base_dir, first) + relative_files(base_dir, second));
    if first.len() == 1 {
        assert(relative_files(base_dir, first.drop_last()) =~= Seq::<Seq<char>>::empty());
        if let Some(file) = paths::below(base_dir, first[0]) {
            assert(relative_files(base_dir, first) =~= seq![file]);
        }
    }
}

/// A key finds the first skill that bears it, and none where no skill does.
pub proof fn law_a_key_finds_its_skill(entries: Seq<KeyedSkill>, key: Seq<char>)
    ensures
        find(entries, key) matches Some(k) ==> 0 <= k < entries.len() && entries[k].key@ == key && forall|i: int|
            0 <= i < k ==> (#[trigger] entries[i]).key@ != key,
        find(entries, key) is None ==> forall|i: int| 0 <= i < entries.len() ==> (#[trigger] entries[i]).key@ != key,
        skill_under(entries, key) is Some <==> exists|i: int| 0 <= i < entries.len() && (#[trigger] entries[i]).key@ == key,
        skill_under(entries, key) matches Some(skill) ==> exists|i: int|
            0 <= i < entries.len() && (#[trigger] entries[i]).key@ == key && entries[i].skill == skill,
    decreases entries.len(),
{
    if entries.len() > 0 {
        let front = entries.drop_last();
        law_a_key_finds_its_skill(front, key);
        assert forall|i: int| 0 <= i < front.len() implies #[trigger] entries[i] == front[i] by {}
        match find(front, key) {
            Some(k) => {
                assert(entries[k] == front[k]);
            },
            None => {
                if entries.last().key@ == key {
                    assert(entries[entries.len() - 1].key@ == key);
                }
            },
        }
    }
}

/// Of the skills with one name the last counts.
pub proof fn law_the_last_of_a_name_counts(skills: Seq<Skill>, key: Seq<char>)
    ensures
        last_named(skills, key) is None <==> forall|k: int|
            0 <= k < skills.len() ==> text::lowercased((#[trigger] skills[k]).name@) != key,
        last_named(skills, key) matches Some(skill) ==> exists|k: int|
            0 <= k < skills.len() && (#[trigger] skills[k]) == skill && text::lowercased(skill.name@) == key && forall|
                later: int,
            |
                k < later < skills.len() ==> text::lowercased((#[trigger] skills[later]).name@) != key,
    decreases skills.len(),
{
    if skills.len() > 0 {
        let front = skills.drop_last();
        let n = skills.len() - 1;
        assert(skills[n] == skills.last());
        if text::lowercased(skills.last().name@) != key {
            law_the_last_of_a_name_counts(front, key);
            assert forall|k: int| 0 <= k < front.len() implies #[trigger] skills[k] == front[k] by {}
            if let Some(skill) = last_named(front, key) {
                let k = choose|k: int|
                    0 <= k < front.len() && (#[trigger] front[k]) == skill && text::lowercased(skill.name@) == key && forall|
                        later: int,
                    |
                        k < later < front.len() ==> text::lowercased((#[trigger] front[later]).name@) != key;
                assert(skills[k] == skill);
                assert forall|later: int| k < later < skills.len() implies text::lowercased(
                    (#[trigger] skills[later]).name@,
                ) != key by {
                    if later < n {
                        assert(front[later] == skills[later]);
                    }
                }
            }
        }
    }
}

/// A description that fits its line is shown as it is; a longer one keeps its
/// beginning and fills the line, with dots at its end.
pub proof fn law_a_line_shows_the_beginning(description: Seq<char>)
    ensures
        description.len() <= DESCRIPTION_BUDGET ==> indexed(description) == description,
        description.len() > DESCRIPTION_BUDGET ==> indexed(description).len() == DESCRIPTION_BUDGET && text::ends(
            indexed(description),
            "..."@,
        ) && indexed(description).take(DESCRIPTION_BUDGET - 3).is_prefix_of(description),
{
    reveal_strlit("...");
    if description.len() > DESCRIPTION_BUDGET {
        let kept = description.take(DESCRIPTION_BUDGET - 3);
        text::law_parts_occur(kept, "..."@, Seq::empty());
        assert(indexed(description).take(DESCRIPTION_BUDGET - 3) =~= kept);
    }
}

/// A skill is suggested in any case of its name.
pub proof fn law_suggestions_ignore_case(suggested: Seq<String>, name: Seq<char>, other: Seq<char>, k: int)
    requires
        0 <= k < suggested.len(),
    ensures
        text::lowercased(name) == text::lowercased(other) ==> suggests(suggested, name) == suggests(suggested, other),
        suggests(suggested, suggested[k]@),
        suggests(Seq::empty(), name) == false,
{
    assert(text::lowercased(suggested[k]@) == text::lowercased(suggested[k]@));
}

/// Descriptions are only ever added: those that were there stay in front, every
/// added category is described, and an added one stands only for a category
/// that had none.
pub proof fn law_the_first_description_of_a_category_stays(
    before: Seq<CategoryDescription>,
    added: Seq<CategoryDescription>,
    after: Seq<CategoryDescription>,
    k: int,
)
    requires
        described_after(before, added, after),
    ensures
        before.is_prefix_of(after),
        0 <= k < added.len() ==> described(after, added[k].category@),
        before.len() <= k < after.len() ==> !described(before, after[k].category@) && added.contains(after[k]),
    decreases added.len(),
{
    if added.len() > 0 {
        let fewer = added.drop_last();
        let last = added.last();
        assert(added[added.len() - 1] == last);
        if after.len() > 0 && after.last() == last && described_after(before, fewer, after.drop_last()) && !described(
            after.drop_last(),
            last.category@,
        ) {
            let held = after.drop_last();
            law_the_first_description_of_a_category_stays(before, fewer, held, k);
            assert(after =~= held.push(last));
            assert forall|i: int| 0 <= i < held.len() implies #[trigger] after[i] == held[i] by {}
            assert(after[after.len() - 1].category@ == last.category@);
            if 0 <= k < fewer.len() {
                let i = choose|i: int| 0 <= i < held.len() && (#[trigger] held[i]).category@ == fewer[k].category@;
                assert(after[i].category@ == added[k].category@);
            }
            if described(before, last.category@) {
                let i = choose|i: int| 0 <= i < before.len() && (#[trigger] before[i]).category@ == last.category@;
                assert(held[i].category@ == last.category@);
            }
            if before.len() <= k < held.len() {
                let i = choose|i: int| 0 <= i < fewer.len() && fewer[i] == held[k];
                assert(added[i] == after[k]);
            }
        } else {
            law_the_first_description_of_a_category_stays(before, fewer, after, k);
            if before.len() <= k < after.len() {
                let i = choose|i: int| 0 <= i < fewer.len() && fewer[i] == after[k];
                assert(added[i] == after[k]);
            }
        }
    }
}

/// A skill is told of as it is, and its line in a prompt shows where it lies and
/// whether it is suggested.
pub proof fn law_a_skill_is_told_of_as_it_is(info: SkillInfo, line: PromptSkill, skill: Skill, suggested: bool)
    requires
        informs(info, skill),
        indexes(line, skill, suggested),
    ensures
        info.name == skill.name && info.description == skill.description && info.file_path == skill.file_path,
        info.base_dir == skill.base_dir && info.source == skill.source && info.source_repo == skill.source_repo,
        info.category == skill.category && line.category == skill.category,
        line.name == skill.name && line.location == skill.file_path && line.suggested == suggested,
        skill.description@.len() <= DESCRIPTION_BUDGET ==> line.description@ == skill.description@,
{
}

} // verus!
