//! The settings of a conversation.
use vstd::prelude::*;

verus! {

/// When an agent answers in a conversation.
#[derive(Debug, Clone, Copy, PartialEq, Eq, Structural)]
pub enum ResponseMode {
    /// Answers normally.
    Active,
    /// Learns from the conversation, never answers.
    Observe,
    /// Answers only when mentioned, replied to, or given a command.
    MentionOnly,
}

impl Default for ResponseMode {
    fn default() -> (mode: Self)
        ensures
            mode == ResponseMode::Active,
    {
        ResponseMode::Active
    }
}

impl ResponseMode {
    /// The name of a mode in stored settings.
    pub open spec fn setting(self) -> Seq<char> {
        match self {
            ResponseMode::Active => "active"@,
            ResponseMode::Observe => "observe"@,
            ResponseMode::MentionOnly => "mention_only"@,
        }
    }

    /// The name of a mode in stored settings.
    pub fn as_setting_str(self) -> (name: &'static str)
        ensures
            name@ == self.setting(),
    {
        match self {
            ResponseMode::Active => "active",
            ResponseMode::Observe => "observe",
            ResponseMode::MentionOnly => "mention_only",
        }
    }
}

// ---------------------------------------------------------------------------
// Laws
// ---------------------------------------------------------------------------

/// Every mode is stored under a name of its own.
pub proof fn law_modes_are_stored_apart(one: ResponseMode, other: ResponseMode)
    ensures
        one.setting() == other.setting() ==> one == other,
        ResponseMode::Active.setting() == "active"@,
        ResponseMode::Observe.setting() == "observe"@,
        ResponseMode::MentionOnly.setting() == "mention_only"@,
{
    reveal_strlit("active");
    reveal_strlit("observe");
    reveal_strlit("mention_only");
    assert("active"@.len() == 6 && "observe"@.len() == 7 && "mention_only"@.len() == 12);
}

} // verus!
