//! The durable log of a conversation.
use vstd::prelude::*;
use crate::llm::history::copy_opt;
use crate::text;

verus! {

/// A logged message.
#[derive(Debug)]
pub struct ConversationMessage {
    pub id: String,
    pub channel_id: String,
    pub role: String,
    pub sender_name: Option<String>,
    pub sender_id: Option<String>,
    pub content: String,
    pub metadata: Option<String>,
    /// Seconds since the Unix epoch.
    pub created_at: i64,
}

impl Clone for ConversationMessage {
    fn clone(&self) -> (copy: Self)
        ensures
            copy == *self,
    {
        ConversationMessage {
            id: self.id.clone(),
            channel_id: self.channel_id.clone(),
            role: self.role.clone(),
            sender_name: copy_opt(&self.sender_name),
            sender_id: copy_opt(&self.sender_id),
            content: self.content.clone(),
            metadata: copy_opt(&self.metadata),
            created_at: self.created_at,
        }
    }
}

/// Whether the position of one message in the log comes before that of
/// another. The log resolves time to whole seconds, so the id breaks ties:
/// within a burst the order may not be that of arrival, but it is the same for
/// every reader.
pub open spec fn logged_before(a: ConversationMessage, b: ConversationMessage) -> bool {
    a.created_at < b.created_at || (a.created_at == b.created_at && text::precedes(a.id@, b.id@))
}

/// Whether messages stand in the order of the log, no two at one position.
pub open spec fn in_log_order(messages: Seq<ConversationMessage>) -> bool {
    forall|i: int, k: int| 0 <= i < k < messages.len() ==> logged_before(#[trigger] messages[i], #[trigger] messages[k])
}

// ---------------------------------------------------------------------------
// Laws
// ---------------------------------------------------------------------------

/// The log goes by time, and by identifier where two messages share one.
pub proof fn law_the_log_goes_by_time(a: ConversationMessage, b: ConversationMessage)
    ensures
        a.created_at < b.created_at ==> logged_before(a, b) && !logged_before(b, a),
        a.created_at == b.created_at ==> (logged_before(a, b) <==> text::precedes(a.id@, b.id@)),
{
}

} // verus!
