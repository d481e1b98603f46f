//! Identity files: SOUL.md, IDENTITY.md, ROLE.md.
//!
//! Identity files live in the agent root directory, one level above the
//! workspace, which places them outside the sandbox boundary.
use vstd::prelude::*;
use crate::text;

verus! {

broadcast use vstd::seq::group_seq_axioms;

/// Loaded identity files for an agent.
#[derive(Debug)]
pub struct Identity {
    pub soul: Option<String>,
    pub identity: Option<String>,
    pub role: Option<String>,
}

impl Default for Identity {
    fn default() -> (identity: Self)
        ensures
            identity.soul is None,
            identity.identity is None,
            identity.role is None,
    {
        Identity { soul: None, identity: None, role: None }
    }
}

/// How a file renders: trimmed, with a blank line behind it; a blank one
/// renders nothing.
pub open spec fn section(content: Option<String>) -> Seq<char> {
    match content {
        Some(content) => if text::trimmed(content@).len() == 0 {
            Seq::empty()
        } else {
            text::trimmed(content@) + "\n\n"@
        },
        None => Seq::empty(),
    }
}

fn write_section(content: &Option<String>) -> (s: String)
    ensures
        s@ == section(*content),
{
    let mut s = String::new();
    if let Some(content) = content {
        let trimmed = text::trim(content.as_str());
        if !trimmed.as_str().is_empty() {
            s = trimmed;
            s.push_str("\n\n");
        }
    }
    s
}

impl Identity {
    /// Renders identity context for injection into system prompts.
    ///
    /// Files render verbatim: an identity file carries its own headings, so the
    /// renderer adds none, and blank files render nothing.
    pub fn render(&self) -> (output: String)
        ensures
            output@ == section(self.soul) + section(self.identity) + section(self.role),
    {
        let mut output = write_section(&self.soul);
        output.push_str(write_section(&self.identity).as_str());
        output.push_str(write_section(&self.role).as_str());
        output
    }
}

/// The names of the identity files, in the order they are written.
pub open spec fn file_names() -> Seq<Seq<char>> {
    seq!["SOUL.md"@, "IDENTITY.md"@, "ROLE.md"@]
}

/// Whether a file is not yet there.
pub open spec fn absent(existing: Seq<Seq<char>>) -> spec_fn(Seq<char>) -> bool {
    |name: Seq<char>| !existing.contains(name)
}

/// The identity files that have to be written: those that are missing.
/// Existing files are left untouched.
pub fn missing_identity_files(existing: &Vec<String>) -> (missing: Vec<String>)
    ensures
        text::texts(missing@) == file_names().filter(absent(text::texts(existing@))),
{
    broadcast use text::texts_push;

    let ghost wanted = absent(text::texts(existing@));
    let ghost names = file_names();
    let mut missing: Vec<String> = Vec::new();
    proof {
        reveal(Seq::filter);
        assert(names.drop_last().drop_last().drop_last() =~= Seq::<Seq<char>>::empty());
        assert(names.drop_last() =~= seq!["SOUL.md"@, "IDENTITY.md"@]);
        assert(names.drop_last().drop_last() =~= seq!["SOUL.md"@]);
    }
    assert(text::texts(missing@) =~= Seq::<Seq<char>>::empty());
    if !text::lists(existing, "SOUL.md") {
        missing.push("SOUL.md".to_owned());
    }
    assert(text::texts(missing@) == names.drop_last().drop_last().filter(wanted)) by {
        reveal(Seq::filter);
        reveal_with_fuel(Seq::filter, 2);
    }
    if !text::lists(existing, "IDENTITY.md") {
        missing.push("IDENTITY.md".to_owned());
    }
    assert(text::texts(missing@) == names.drop_last().filter(wanted)) by {
        reveal(Seq::filter);
    }
    if !text::lists(existing, "ROLE.md") {
        missing.push("ROLE.md".to_owned());
    }
    assert(text::texts(missing@) == names.filter(wanted)) by {
        reveal(Seq::filter);
    }
    missing
}

// ---------------------------------------------------------------------------
// Laws
// ---------------------------------------------------------------------------

/// A section shows its text without the whitespace around it, followed by a
/// blank line, and a blank text shows nothing.
pub proof fn law_a_section_shows_its_text(content: Option<String>)
    ensures
        content is None ==> section(content).len() == 0,
        content is Some && text::trimmed(content->0@).len() == 0 ==> section(content).len() == 0,
        content is Some && text::trimmed(content->0@).len() > 0 ==> text::begins(
            section(content),
            text::trimmed(content->0@),
        ) && text::ends(section(content), "\n\n"@) && section(content).len() == text::trimmed(content->0@).len() + 2,
{
    if let Some(content) = content {
        reveal_strlit("\n\n");
        text::law_parts_occur(Seq::empty(), text::trimmed(content@), "\n\n"@);
        text::law_parts_occur(text::trimmed(content@), "\n\n"@, Seq::empty());
    }
}

/// An identity is made of three files, and those are missing that do not exist.
pub proof fn law_missing_files_are_those_that_do_not_exist(existing: Seq<Seq<char>>, name: Seq<char>)
    ensures
        absent(existing)(name) <==> !existing.contains(name),
        file_names().contains(name) <==> name == "SOUL.md"@ || name == "IDENTITY.md"@ || name == "ROLE.md"@,
        file_names().no_duplicates(),
{
    reveal_strlit("SOUL.md");
    reveal_strlit("IDENTITY.md");
    reveal_strlit("ROLE.md");
    let names = file_names();
    assert("SOUL.md"@[0] != "IDENTITY.md"@[0] && "SOUL.md"@[0] != "ROLE.md"@[0] && "IDENTITY.md"@[0] != "ROLE.md"@[0]);
    assert(names[0] == "SOUL.md"@ && names[1] == "IDENTITY.md"@ && names[2] == "ROLE.md"@);
}

} // verus!
