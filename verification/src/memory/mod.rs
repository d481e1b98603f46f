//! Memory rendering and consolidation.
use vstd::prelude::*;
use crate::text;

pub mod consolidation;
pub mod render;

verus! {

/// What a memory is about.
#[derive(Debug, Clone, Copy, PartialEq, Eq, Structural)]
pub enum MemoryType {
    Fact,
    Preference,
    Decision,
    Identity,
    Event,
    Observation,
    Goal,
    Todo,
    Human,
}

impl MemoryType {
    /// The label of a memory type, which names its partition.
    pub open spec fn name(self) -> Seq<char> {
        match self {
            MemoryType::Fact => "fact"@,
            MemoryType::Preference => "preference"@,
            MemoryType::Decision => "decision"@,
            MemoryType::Identity => "identity"@,
            MemoryType::Event => "event"@,
            MemoryType::Observation => "observation"@,
            MemoryType::Goal => "goal"@,
            MemoryType::Todo => "todo"@,
            MemoryType::Human => "human"@,
        }
    }

    /// The label of a memory type.
    pub fn label(self) -> (label: &'static str)
        ensures
            label@ == self.name(),
    {
        match self {
            MemoryType::Fact => "fact",
            MemoryType::Preference => "preference",
            MemoryType::Decision => "decision",
            MemoryType::Identity => "identity",
            MemoryType::Event => "event",
            MemoryType::Observation => "observation",
            MemoryType::Goal => "goal",
            MemoryType::Todo => "todo",
            MemoryType::Human => "human",
        }
    }

    /// The memory type that a label stands for.
    pub open spec fn labelled(label: Seq<char>) -> Option<MemoryType> {
        if label == "fact"@ {
            Some(MemoryType::Fact)
        } else if label == "preference"@ {
            Some(MemoryType::Preference)
        } else if label == "decision"@ {
            Some(MemoryType::Decision)
        } else if label == "identity"@ {
            Some(MemoryType::Identity)
        } else if label == "event"@ {
            Some(MemoryType::Event)
        } else if label == "observation"@ {
            Some(MemoryType::Observation)
        } else if label == "goal"@ {
            Some(MemoryType::Goal)
        } else if label == "todo"@ {
            Some(MemoryType::Todo)
        } else if label == "human"@ {
            Some(MemoryType::Human)
        } else {
            None
        }
    }

    /// Reads the label of a memory type.
    pub fn from_label(label: &str) -> (kind: Option<MemoryType>)
        ensures
            kind == MemoryType::labelled(label@),
    {
        if text::same(label, "fact") {
            Some(MemoryType::Fact)
        } else if text::same(label, "preference") {
            Some(MemoryType::Preference)
        } else if text::same(label, "decision") {
            Some(MemoryType::Decision)
        } else if text::same(label, "identity") {
            Some(MemoryType::Identity)
        } else if text::same(label, "event") {
            Some(MemoryType::Event)
        } else if text::same(label, "observation") {
            Some(MemoryType::Observation)
        } else if text::same(label, "goal") {
            Some(MemoryType::Goal)
        } else if text::same(label, "todo") {
            Some(MemoryType::Todo)
        } else if text::same(label, "human") {
            Some(MemoryType::Human)
        } else {
            None
        }
    }
}

/// The first line of a text that is not blank, trimmed; nothing where there is
/// none.
pub open spec fn first_full_line(lines: Seq<Seq<char>>) -> Seq<char>
    decreases lines.len(),
{
    if lines.len() == 0 {
        Seq::empty()
    } else if text::trimmed(lines[0]).len() > 0 {
        text::trimmed(lines[0])
    } else {
        first_full_line(lines.subrange(1, lines.len() as int))
    }
}

/// The first line of a text that is not blank, trimmed.
pub fn first_text_line(content: &str) -> (line: String)
    ensures
        line@ == first_full_line(text::lines_of(content@)),
{
    let lines = text::lines(content);
    let ghost all = text::texts(lines@);
    let mut k: usize = 0;
    assert(all.subrange(0, all.len() as int) =~= all);
    while k < lines.len()
        invariant
            all == text::texts(lines@),
            all == text::lines_of(content@),
            k <= lines@.len(),
            first_full_line(all) == first_full_line(all.subrange(k as int, all.len() as int)),
        decreases lines@.len() - k,
    {
        let line = text::trim(lines[k].as_str());
        let ghost here = all.subrange(k as int, all.len() as int);
        assert(here[0] == lines@[k as int]@);
        assert(here.subrange(1, here.len() as int) =~= all.subrange(k + 1, all.len() as int));
        if !line.as_str().is_empty() {
            return line;
        }
        k = k + 1;
    }
    String::new()
}

// ---------------------------------------------------------------------------
// Laws
// ---------------------------------------------------------------------------

/// The label of a memory type gives the type back, and no other text does.
pub proof fn law_labels_read_back(kind: MemoryType, label: Seq<char>)
    ensures
        MemoryType::labelled(kind.name()) == Some(kind),
        MemoryType::labelled(label) == Some(kind) ==> label == kind.name(),
{
    reveal_strlit("fact");
    reveal_strlit("preference");
    reveal_strlit("decision");
    reveal_strlit("identity");
    reveal_strlit("event");
    reveal_strlit("observation");
    reveal_strlit("goal");
    reveal_strlit("todo");
    reveal_strlit("human");
    assert("fact"@.len() == 4 && "goal"@.len() == 4 && "todo"@.len() == 4);
    assert("fact"@[0] == 'f' && "goal"@[0] == 'g' && "todo"@[0] == 't');
    assert("preference"@.len() == 10 && "observation"@.len() == 11);
    assert("decision"@.len() == 8 && "identity"@.len() == 8);
    assert("decision"@[0] == 'd' && "identity"@[0] == 'i');
    assert("event"@.len() == 5 && "human"@.len() == 5);
    assert("event"@[0] == 'e' && "human"@[0] == 'h');
}

/// The line that stands for a text is the first of its lines that is not blank,
/// without the blanks around it; there is none only where every line is blank.
pub proof fn law_the_first_full_line_is_found(lines: Seq<Seq<char>>)
    ensures
        first_full_line(lines).len() == 0 ==> forall|k: int|
            0 <= k < lines.len() ==> text::trimmed(#[trigger] lines[k]).len() == 0,
        first_full_line(lines).len() > 0 ==> exists|k: int|
            0 <= k < lines.len() && text::trimmed(#[trigger] lines[k]) == first_full_line(lines) && forall|i: int|
                0 <= i < k ==> text::trimmed(#[trigger] lines[i]).len() == 0,
    decreases lines.len(),
{
    if lines.len() > 0 {
        if text::trimmed(lines[0]).len() > 0 {
            assert(text::trimmed(lines[0]) == first_full_line(lines));
        } else {
            let rest = lines.subrange(1, lines.len() as int);
            law_the_first_full_line_is_found(rest);
            assert forall|k: int| 0 < k < lines.len() implies lines[k] == rest[k - 1] by {}
            if first_full_line(rest).len() > 0 {
                let k = choose|k: int|
                    0 <= k < rest.len() && text::trimmed(#[trigger] rest[k]) == first_full_line(rest) && forall|i: int|
                        0 <= i < k ==> text::trimmed(#[trigger] rest[i]).len() == 0;
                assert(text::trimmed(lines[k + 1]) == first_full_line(lines));
                assert forall|i: int| 0 <= i < k + 1 implies text::trimmed(#[trigger] lines[i]).len() == 0 by {
                    if i > 0 {
                        assert(rest[i - 1] == lines[i]);
                    }
                }
            } else {
                assert forall|k: int| 0 <= k < lines.len() implies text::trimmed(#[trigger] lines[k]).len() == 0 by {
                    if k > 0 {
                        assert(rest[k - 1] == lines[k]);
                    }
                }
            }
        }
    }
}

} // verus!
