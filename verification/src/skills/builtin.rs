//! Built-in skills compiled into the binary.
//!
//! To add a built-in skill, add a constant with the text of its SKILL.md and
//! an entry to [`load`].
use vstd::prelude::*;
use crate::skills::frontmatter;
use crate::skills::frontmatter::{Platform, SkillFrontmatter, SkillParseError};
use crate::skills::{gate, list_or_none, text_or_empty};
use crate::skills::{Skill, SkillModel, SkillSource};
use crate::text;

verus! {

broadcast use vstd::seq::group_seq_axioms;

/// The text of the skill that teaches how to write wiki pages.
pub const WIKI_WRITING: &'static str = "---
name: wiki-writing
description: Write and edit wiki pages that stay accurate, linked, and short.
tags: [wiki, writing]
---

# Wiki Writing

A wiki page records what is known about one subject. Read the page before you
change it, and change only what you can support.

## Language

- Plain, declarative sentences in the present tense.
- Name the subject in the first sentence.
- No praise, no filler, no first person.

## Structure

- One subject per page; split a page that covers two.
- A short summary first, details below it under headings.
- Link other pages by slug the first time they are mentioned.

## Editing

- Say in the edit summary what changed and why.
- Correct a wrong statement in place; don't append a contradiction.
";

/// Where a built-in skill would lie.
pub open spec fn builtin_dir(dir_name: Seq<char>) -> Seq<char> {
    "builtin://"@ + dir_name
}

/// The skill that a built-in file defines; nothing where it is gated to other
/// platforms.
pub open spec fn builtin_skill(
    dir_name: Seq<char>,
    parsed: Result<(frontmatter::FrontmatterModel, Seq<char>), frontmatter::RefusalModel>,
    host: Platform,
) -> Result<Option<SkillModel>, frontmatter::RefusalModel> {
    match parsed {
        Err(refusal) => Err(refusal),
        Ok((head, body)) => if crate::skills::gated(head, host) {
            Ok(None)
        } else {
            Ok(
                Some(
                    SkillModel {
                        name: match head.name {
                            Some(name) => name,
                            None => dir_name,
                        },
                        description: crate::skills::or_empty(head.description),
                        file_path: builtin_dir(dir_name) + "/SKILL.md"@,
                        base_dir: builtin_dir(dir_name),
                        content: body,
                        source: SkillSource::Builtin,
                        source_repo: None,
                        tags: crate::skills::or_none(head.tags),
                        related_skills: crate::skills::or_none(head.related_skills),
                        linked_files: Seq::empty(),
                        category: "general"@,
                    },
                ),
            )
        },
    }
}

/// What the result of loading a skill is.
pub open spec fn skill_model(loaded: Result<Option<Skill>, SkillParseError>) -> Result<
    Option<SkillModel>,
    frontmatter::RefusalModel,
> {
    match loaded {
        Err(error) => Err(error@),
        Ok(Some(skill)) => Ok(Some(skill@)),
        Ok(None) => Ok(None),
    }
}

/// Defines the skill of a built-in file that was parsed.
pub fn define_builtin(
    dir_name: &str,
    parsed: Result<(SkillFrontmatter, String), SkillParseError>,
    host: Platform,
) -> (skill: Result<Option<Skill>, SkillParseError>)
    ensures
        skill_model(skill) == builtin_skill(dir_name@, frontmatter::parse_model(parsed), host),
{
    let (head, body) = match parsed {
        Ok(parts) => parts,
        Err(error) => {
            return Err(error);
        },
    };
    if gate(&head, host) {
        return Ok(None);
    }
    let mut base_dir = "builtin://".to_owned();
    base_dir.push_str(dir_name);
    let mut file_path = base_dir.clone();
    file_path.push_str("/SKILL.md");
    let name = match head.name {
        Some(name) => name,
        None => dir_name.to_owned(),
    };
    let linked_files: Vec<String> = Vec::new();
    assert(text::texts(linked_files@) =~= Seq::<Seq<char>>::empty());
    Ok(
        Some(
            Skill {
                name,
                description: text_or_empty(head.description),
                file_path,
                base_dir,
                content: body,
                source: SkillSource::Builtin,
                source_repo: None,
                tags: list_or_none(head.tags),
                related_skills: list_or_none(head.related_skills),
                linked_files,
                category: "general".to_owned(),
            },
        ),
    )
}

/// Parses a built-in skill. `said` is what deserializing its YAML gave.
///
/// Returns `Ok(None)` when the skill declares `platforms` that don't hold the
/// host platform, matching filesystem skill loading.
pub fn parse_builtin(
    dir_name: &str,
    raw: &str,
    said: Result<SkillFrontmatter, String>,
    host: Platform,
) -> (skill: Result<Option<Skill>, SkillParseError>)
    ensures
        skill_model(skill) == builtin_skill(
            dir_name@,
            frontmatter::parsed(raw@, frontmatter::said_model(said)),
            host,
        ),
{
    define_builtin(dir_name, frontmatter::parse_skill_markdown(raw, said), host)
}

/// Parses all built-in skills. One that does not parse, or is gated to other
/// platforms, is left out. `said` is what deserializing the YAML of
/// [`WIKI_WRITING`] gave.
pub fn load(said: Result<SkillFrontmatter, String>, host: Platform) -> (skills: Vec<Skill>)
    ensures
        crate::skills::skill_models(skills@) == (match builtin_skill(
            "wiki-writing"@,
            frontmatter::parsed(WIKI_WRITING@, frontmatter::said_model(said)),
            host,
        ) {
            Ok(Some(skill)) => seq![skill],
            _ => Seq::empty(),
        }),
{
    let mut skills: Vec<Skill> = Vec::new();
    if let Ok(Some(skill)) = parse_builtin("wiki-writing", WIKI_WRITING, said, host) {
        skills.push(skill);
        assert(crate::skills::skill_models(skills@) =~= seq![skill@]);
    } else {
        assert(crate::skills::skill_models(skills@) =~= Seq::empty());
    }
    skills
}

// ---------------------------------------------------------------------------
// Laws
// ---------------------------------------------------------------------------

/// A built-in skill is one that was loaded from its own directory: it stands
/// under it, holds its text unchanged and is a general one, and it is left out
/// exactly where its platforms leave the host out.
pub proof fn law_a_builtin_skill_stands_in_its_own_directory(
    dir_name: Seq<char>,
    head: frontmatter::FrontmatterModel,
    body: Seq<char>,
    host: Platform,
)
    ensures
        ({
            let loaded = builtin_skill(dir_name, Ok((head, body)), host);
            &&& loaded is Ok
            &&& loaded->Ok_0 is None <==> head.platforms is Some && !Platform::admits(head.platforms->0, host)
            &&& loaded->Ok_0 matches Some(skill) ==> {
                &&& skill.content == body
                &&& skill.source == SkillSource::Builtin
                &&& skill.source_repo is None
                &&& skill.linked_files.len() == 0
                &&& skill.category == "general"@
                &&& head.name is Some ==> skill.name == head.name->0
                &&& head.name is None ==> skill.name == dir_name
                &&& head.description is Some ==> skill.description == head.description->0
                &&& head.description is None ==> skill.description.len() == 0
                &&& head.tags is Some ==> skill.tags == head.tags->0
                &&& head.tags is None ==> skill.tags.len() == 0
                &&& head.related_skills is Some ==> skill.related_skills == head.related_skills->0
                &&& head.related_skills is None ==> skill.related_skills.len() == 0
                &&& text::begins(skill.file_path, skill.base_dir)
                &&& text::ends(skill.file_path, "/SKILL.md"@)
                &&& text::begins(skill.base_dir, "builtin://"@)
                &&& text::ends(skill.base_dir, dir_name)
            }
        }),
{
    let dir = builtin_dir(dir_name);
    text::law_parts_occur(Seq::empty(), dir, "/SKILL.md"@);
    text::law_parts_occur(dir, "/SKILL.md"@, Seq::empty());
    text::law_parts_occur(Seq::empty(), "builtin://"@, dir_name);
    text::law_parts_occur("builtin://"@, dir_name, Seq::empty());
}

} // verus!
