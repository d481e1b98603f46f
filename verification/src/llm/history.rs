//! A conversation as a provider receives it.
//!
//! Content that the pairing rules never look into (images, documents,
//! reasoning) is carried as a number by which the caller finds it again.
use vstd::prelude::*;
use crate::text;

verus! {

/// One part of what a tool handed back.
pub enum ToolResultContent {
    Text(String),
    Image(usize),
}

/// A tool's answer to a call.
pub struct ToolResult {
    pub id: String,
    pub call_id: Option<String>,
    pub content: Vec<ToolResultContent>,
}

/// A request of the model to run a tool.
pub struct ToolCall {
    pub id: String,
    pub call_id: Option<String>,
    /// Finds the function, its arguments and its signature again.
    pub function: usize,
}

/// One item of a user message.
pub enum UserContent {
    Text(String),
    ToolResult(ToolResult),
    Other(usize),
}

/// One item of an assistant message.
pub enum AssistantContent {
    Text(String),
    ToolCall(ToolCall),
    Other(usize),
}

/// One message of a conversation.
#[allow(inconsistent_fields)]
pub enum Message {
    System { content: String },
    User { content: Vec<UserContent> },
    Assistant { id: Option<String>, content: Vec<AssistantContent> },
}

/// What a part of a tool result is.
pub enum PartModel {
    Text(Seq<char>),
    Image(int),
}

/// What a tool result is.
pub struct ResultModel {
    pub id: Seq<char>,
    pub call_id: Option<Seq<char>>,
    pub content: Seq<PartModel>,
}

/// What a tool call is.
pub struct CallModel {
    pub id: Seq<char>,
    pub call_id: Option<Seq<char>>,
    pub function: int,
}

/// What an item of a user message is.
pub enum UserModel {
    Text(Seq<char>),
    ToolResult(ResultModel),
    Other(int),
}

/// What an item of an assistant message is.
pub enum AssistantModel {
    Text(Seq<char>),
    ToolCall(CallModel),
    Other(int),
}

/// What a message is.
pub enum MessageModel {
    System(Seq<char>),
    User(Seq<UserModel>),
    Assistant(Option<Seq<char>>, Seq<AssistantModel>),
}

impl View for ToolResultContent {
    type V = PartModel;

    open spec fn view(&self) -> PartModel {
        match self {
            ToolResultContent::Text(text) => PartModel::Text(text@),
            ToolResultContent::Image(image) => PartModel::Image(*image as int),
        }
    }
}

impl View for ToolResult {
    type V = ResultModel;

    open spec fn view(&self) -> ResultModel {
        ResultModel {
            id: self.id@,
            call_id: text::opt_text(self.call_id),
            content: self.content@.map_values(|part: ToolResultContent| part@),
        }
    }
}

impl View for ToolCall {
    type V = CallModel;

    open spec fn view(&self) -> CallModel {
        CallModel { id: self.id@, call_id: text::opt_text(self.call_id), function: self.function as int }
    }
}

impl View for UserContent {
    type V = UserModel;

    open spec fn view(&self) -> UserModel {
        match self {
            UserContent::Text(text) => UserModel::Text(text@),
            UserContent::ToolResult(result) => UserModel::ToolResult(result@),
            UserContent::Other(item) => UserModel::Other(*item as int),
        }
    }
}

impl View for AssistantContent {
    type V = AssistantModel;

    open spec fn view(&self) -> AssistantModel {
        match self {
            AssistantContent::Text(text) => AssistantModel::Text(text@),
            AssistantContent::ToolCall(call) => AssistantModel::ToolCall(call@),
            AssistantContent::Other(item) => AssistantModel::Other(*item as int),
        }
    }
}

/// What the items of a user message are.
pub open spec fn user_items(content: Seq<UserContent>) -> Seq<UserModel> {
    content.map_values(|item: UserContent| item@)
}

/// What the items of an assistant message are.
pub open spec fn assistant_items(content: Seq<AssistantContent>) -> Seq<AssistantModel> {
    content.map_values(|item: AssistantContent| item@)
}

impl View for Message {
    type V = MessageModel;

    open spec fn view(&self) -> MessageModel {
        match self {
            Message::System { content } => MessageModel::System(content@),
            Message::User { content } => MessageModel::User(user_items(content@)),
            Message::Assistant { id, content } => MessageModel::Assistant(
                text::opt_text(*id),
                assistant_items(content@),
            ),
        }
    }
}

/// What a sequence of messages is.
pub open spec fn messages(history: Seq<Message>) -> Seq<MessageModel> {
    history.map_values(|message: Message| message@)
}

impl Clone for ToolResultContent {
    fn clone(&self) -> (copy: Self)
        ensures
            copy@ == self@,
    {
        match self {
            ToolResultContent::Text(text) => ToolResultContent::Text(text.clone()),
            ToolResultContent::Image(image) => ToolResultContent::Image(*image),
        }
    }
}

/// A copy of an optional string.
pub(crate) fn copy_opt(s: &Option<String>) -> (copy: Option<String>)
    ensures
        copy == *s,
{
    match s {
        Some(s) => Some(s.clone()),
        None => None,
    }
}

impl Clone for ToolResult {
    fn clone(&self) -> (copy: Self)
        ensures
            copy@ == self@,
    {
        let mut content: Vec<ToolResultContent> = Vec::new();
        let mut i: usize = 0;
        while i < self.content.len()
            invariant
                i <= self.content@.len(),
                content@.len() == i,
                forall|k: int| 0 <= k < i ==> (#[trigger] content@[k])@ == self.content@[k]@,
            decreases self.content@.len() - i,
        {
            content.push(self.content[i].clone());
            i = i + 1;
        }
        let copy = ToolResult { id: self.id.clone(), call_id: copy_opt(&self.call_id), content };
        assert(copy@.content =~= self@.content);
        copy
    }
}

impl Clone for ToolCall {
    fn clone(&self) -> (copy: Self)
        ensures
            copy@ == self@,
    {
        ToolCall { id: self.id.clone(), call_id: copy_opt(&self.call_id), function: self.function }
    }
}

impl Clone for UserContent {
    fn clone(&self) -> (copy: Self)
        ensures
            copy@ == self@,
    {
        match self {
            UserContent::Text(text) => UserContent::Text(text.clone()),
            UserContent::ToolResult(result) => UserContent::ToolResult(result.clone()),
            UserContent::Other(item) => UserContent::Other(*item),
        }
    }
}

impl Clone for AssistantContent {
    fn clone(&self) -> (copy: Self)
        ensures
            copy@ == self@,
    {
        match self {
            AssistantContent::Text(text) => AssistantContent::Text(text.clone()),
            AssistantContent::ToolCall(call) => AssistantContent::ToolCall(call.clone()),
            AssistantContent::Other(item) => AssistantContent::Other(*item),
        }
    }
}

impl Clone for Message {
    fn clone(&self) -> (copy: Self)
        ensures
            copy@ == self@,
    {
        match self {
            Message::System { content } => Message::System { content: content.clone() },
            Message::User { content } => {
                let mut items: Vec<UserContent> = Vec::new();
                let mut i: usize = 0;
                while i < content.len()
                    invariant
                        i <= content@.len(),
                        items@.len() == i,
                        forall|k: int| 0 <= k < i ==> (#[trigger] items@[k])@ == content@[k]@,
                    decreases content@.len() - i,
                {
                    items.push(content[i].clone());
                    i = i + 1;
                }
                assert(user_items(items@) =~= user_items(content@));
                Message::User { content: items }
            },
            Message::Assistant { id, content } => {
                let mut items: Vec<AssistantContent> = Vec::new();
                let mut i: usize = 0;
                while i < content.len()
                    invariant
                        i <= content@.len(),
                        items@.len() == i,
                        forall|k: int| 0 <= k < i ==> (#[trigger] items@[k])@ == content@[k]@,
                    decreases content@.len() - i,
                {
                    items.push(content[i].clone());
                    i = i + 1;
                }
                assert(assistant_items(items@) =~= assistant_items(content@));
                Message::Assistant { id: copy_opt(id), content: items }
            },
        }
    }
}

} // verus!
