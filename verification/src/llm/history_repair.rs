//! Tool-call pairing repair applied to a request on its way to a provider.
//!
//! Providers reject a tool result whose originating call is missing from the
//! same request, and the rejection is deterministic: retrying the same history
//! fails identically every time. Histories are trimmed in several places, and
//! every cut can land between a call and its result. This pass is the
//! guarantee underneath them: whatever assembled the history, what leaves for
//! the provider pairs.
//!
//! An unpairable result is rewritten as delimited plain text rather than
//! discarded: it stays useful to the model as prose, and the delimiters mark it
//! as historical data so that it cannot read as an instruction.
use vstd::prelude::*;
use crate::llm::history;
use crate::llm::history::{
    AssistantContent, AssistantModel, CallModel, Message, MessageModel, PartModel, ResultModel, ToolCall, ToolResult,
    ToolResultContent, UserContent, UserModel,
};
use crate::text;

verus! {

broadcast use vstd::seq::group_seq_axioms;

/// How much of a historical tool result survives as plain text.
pub const MAX_UNTRUSTED_RESULT_CHARS: usize = 1_024;

/// What a repair pass changed, for logging and metrics.
#[derive(Debug, Clone, Copy, PartialEq, Eq, Structural)]
pub struct ToolHistoryRepair {
    /// Results whose call is absent from the request entirely.
    pub orphan_results: usize,
    /// Results that appear at or before the call they claim.
    pub stale_results: usize,
    /// Second and later results claiming a call already answered.
    pub duplicate_results: usize,
    /// Calls left with no result, removed only when a provider rejected them.
    pub unanswered_calls: usize,
}

impl Default for ToolHistoryRepair {
    fn default() -> (report: Self)
        ensures
            report.sum() == 0,
            report.orphan_results == 0,
            report.stale_results == 0,
            report.duplicate_results == 0,
            report.unanswered_calls == 0,
    {
        ToolHistoryRepair { orphan_results: 0, stale_results: 0, duplicate_results: 0, unanswered_calls: 0 }
    }
}

impl ToolHistoryRepair {
    /// How many items a pass changed.
    pub open spec fn sum(self) -> int {
        self.orphan_results + self.stale_results + self.duplicate_results + self.unanswered_calls
    }

    /// Whether a pass changed anything.
    pub fn changed(&self) -> (changed: bool)
        requires
            self.sum() <= usize::MAX,
        ensures
            changed == (self.sum() > 0),
    {
        self.total() > 0
    }

    /// How many items a pass changed.
    pub fn total(&self) -> (total: usize)
        requires
            self.sum() <= usize::MAX,
        ensures
            total == self.sum(),
    {
        self.orphan_results + self.stale_results + self.duplicate_results + self.unanswered_calls
    }
}

/// Why a result cannot stay a protocol message.
#[derive(Debug, Clone, Copy, PartialEq, Eq, Structural)]
pub enum Unpairable {
    Orphan,
    Stale,
    Duplicate,
}

impl Unpairable {
    /// The wording of a verdict.
    pub open spec fn wording(self) -> Seq<char> {
        match self {
            Unpairable::Orphan => "no matching tool call in this request"@,
            Unpairable::Stale => "result recorded before the call it answers"@,
            Unpairable::Duplicate => "call already answered by an earlier result"@,
        }
    }

    pub fn reason(self) -> (reason: &'static str)
        ensures
            reason@ == self.wording(),
    {
        match self {
            Unpairable::Orphan => "no matching tool call in this request",
            Unpairable::Stale => "result recorded before the call it answers",
            Unpairable::Duplicate => "call already answered by an earlier result",
        }
    }
}

// ---------------------------------------------------------------------------
// What pairs with what
// ---------------------------------------------------------------------------

/// Whether a call carries an identifier, as its `id` or as its `call_id`. The
/// empty text identifies nothing.
pub open spec fn call_carries(call: CallModel, key: Seq<char>) -> bool {
    key.len() > 0 && (call.id == key || call.call_id == Some(key))
}

/// Whether an item of an assistant message is a call with an identifier.
pub open spec fn item_carries(item: AssistantModel, key: Seq<char>) -> bool {
    item matches AssistantModel::ToolCall(call) && call_carries(call, key)
}

/// The first of the items that is a call with an identifier.
pub open spec fn first_call(items: Seq<AssistantModel>, key: Seq<char>) -> Option<int>
    decreases items.len(),
{
    if items.len() == 0 {
        None
    } else {
        match first_call(items.drop_last(), key) {
            Some(j) => Some(j),
            None => if item_carries(items.last(), key) {
                Some(items.len() - 1)
            } else {
                None
            },
        }
    }
}

/// The first call of a message with an identifier.
pub open spec fn call_in(message: MessageModel, key: Seq<char>) -> Option<int> {
    match message {
        MessageModel::Assistant(_, items) => first_call(items, key),
        _ => None,
    }
}

/// The first call of a history with an identifier: which message holds it, and
/// which item of the message it is.
pub open spec fn first_carrier(history: Seq<MessageModel>, key: Seq<char>) -> Option<(int, int)>
    decreases history.len(),
{
    if history.len() == 0 {
        None
    } else {
        match first_carrier(history.drop_last(), key) {
            Some(call) => Some(call),
            None => match call_in(history.last(), key) {
                Some(j) => Some((history.len() - 1, j)),
                None => None,
            },
        }
    }
}

/// Where the call that a result claims sits, under either identifier.
pub open spec fn claimed_call(history: Seq<MessageModel>, result: ResultModel) -> Option<(int, int)> {
    match first_carrier(history, result.id) {
        Some(call) => Some(call),
        None => match result.call_id {
            Some(call_id) => first_carrier(history, call_id),
            None => None,
        },
    }
}

/// The identifier a pair is keyed on, preferring the one providers send.
pub open spec fn pair_key(id: Seq<char>, call_id: Option<Seq<char>>) -> Seq<char> {
    match call_id {
        Some(call_id) => if call_id.len() > 0 {
            call_id
        } else {
            id
        },
        None => id,
    }
}

/// The call that a result answers: the one with the identifier that the pair
/// is keyed on, and where no call has that, the one that the result claims.
pub open spec fn answered_call(history: Seq<MessageModel>, result: ResultModel) -> Option<(int, int)> {
    match first_carrier(history, pair_key(result.id, result.call_id)) {
        Some(call) => Some(call),
        None => claimed_call(history, result),
    }
}

/// The tool result that is item `j` of message `i`.
pub open spec fn result_at(history: Seq<MessageModel>, i: int, j: int) -> Option<ResultModel> {
    if 0 <= i < history.len() {
        match history[i] {
            MessageModel::User(items) => if 0 <= j < items.len() {
                match items[j] {
                    UserModel::ToolResult(result) => Some(result),
                    _ => None,
                }
            } else {
                None
            },
            _ => None,
        }
    } else {
        None
    }
}

/// Whether item `j` of message `i` is a result that follows the call it claims.
pub open spec fn follows_call(history: Seq<MessageModel>, i: int, j: int) -> bool {
    result_at(history, i, j) matches Some(result) && claimed_call(history, result) matches Some(call)
        && call.0 < i
}

/// Whether item `b` of message `a` comes before item `j` of message `i`.
pub open spec fn earlier(a: int, b: int, i: int, j: int) -> bool {
    a < i || (a == i && b < j)
}

/// Whether item `b` of message `a` answers a call, and comes before item
/// `j` of message `i`.
pub open spec fn answers_before(
    history: Seq<MessageModel>,
    a: int,
    b: int,
    i: int,
    j: int,
    call: (int, int),
) -> bool {
    &&& earlier(a, b, i, j)
    &&& follows_call(history, a, b)
    &&& answered_call(history, result_at(history, a, b)->0) == Some(call)
}

/// Whether a call was answered before item `j` of message `i`.
pub open spec fn answered_before(history: Seq<MessageModel>, i: int, j: int, call: (int, int)) -> bool {
    exists|a: int, b: int| answers_before(history, a, b, i, j, call)
}

/// Why item `j` of message `i` cannot stay a protocol message, if it cannot.
pub open spec fn verdict(history: Seq<MessageModel>, i: int, j: int) -> Option<Unpairable> {
    match result_at(history, i, j) {
        None => None,
        Some(result) => match claimed_call(history, result) {
            None => Some(Unpairable::Orphan),
            Some(claimed) => if i <= claimed.0 {
                Some(Unpairable::Stale)
            } else if answered_before(history, i, j, answered_call(history, result)->0) {
                Some(Unpairable::Duplicate)
            } else {
                None
            },
        },
    }
}

/// Whether a provider can pair every result of a history.
pub open spec fn paired(history: Seq<MessageModel>) -> bool {
    forall|i: int, j: int| (#[trigger] verdict(history, i, j)) is None
}

/// Whether every message holds something, as every message of a request does.
pub open spec fn well_formed(history: Seq<MessageModel>) -> bool {
    forall|i: int| 0 <= i < history.len() ==> match #[trigger] history[i] {
        MessageModel::System(_) => true,
        MessageModel::User(items) => items.len() > 0,
        MessageModel::Assistant(_, items) => items.len() > 0,
    }
}

// ---------------------------------------------------------------------------
// What a result becomes once it cannot pair
// ---------------------------------------------------------------------------

/// The text of one part of a tool result.
pub open spec fn part_text(part: PartModel) -> Seq<char> {
    match part {
        PartModel::Text(text) => text,
        PartModel::Image(_) => "[historical image result omitted]"@,
    }
}

/// The parts of a tool result one below the other, up to and with the first
/// one that reaches the limit.
pub open spec fn gathered(parts: Seq<PartModel>) -> Seq<char>
    decreases parts.len(),
{
    if parts.len() == 0 {
        Seq::empty()
    } else {
        let front = gathered(parts.drop_last());
        if front.len() >= MAX_UNTRUSTED_RESULT_CHARS {
            front
        } else if front.len() > 0 {
            front.push('\n') + part_text(parts.last())
        } else {
            part_text(parts.last())
        }
    }
}

/// A text cut to the limit, with a mark where it was cut.
pub open spec fn bounded(text: Seq<char>) -> Seq<char> {
    if text.len() > MAX_UNTRUSTED_RESULT_CHARS {
        text.take(MAX_UNTRUSTED_RESULT_CHARS as int) + "…[truncated]"@
    } else {
        text
    }
}

/// A result as delimited historical data.
pub open spec fn note(result: ResultModel, verdict: Unpairable) -> Seq<char> {
    "[BEGIN UNTRUSTED HISTORICAL TOOL OUTPUT — "@ + verdict.wording() + "; call id: "@ + pair_key(
        result.id,
        result.call_id,
    ) + "]\n"@ + bounded(gathered(result.content)) + "\n[END UNTRUSTED HISTORICAL TOOL OUTPUT]"@
}

/// What item `j` of message `i` becomes.
pub open spec fn repaired_item(history: Seq<MessageModel>, i: int, j: int, item: UserModel) -> UserModel {
    match verdict(history, i, j) {
        Some(verdict) => UserModel::Text(note(result_at(history, i, j)->0, verdict)),
        None => item,
    }
}

/// What message `i` becomes.
pub open spec fn repaired_message(history: Seq<MessageModel>, i: int) -> MessageModel {
    match history[i] {
        MessageModel::User(items) => MessageModel::User(
            Seq::new(items.len(), |j: int| repaired_item(history, i, j, items[j])),
        ),
        message => message,
    }
}

/// What a history becomes.
pub open spec fn repaired(history: Seq<MessageModel>) -> Seq<MessageModel> {
    Seq::new(history.len(), |i: int| repaired_message(history, i))
}

/// How many of the first `n` items of message `i` have a verdict.
pub open spec fn count_row(history: Seq<MessageModel>, i: int, n: nat, which: Unpairable) -> nat
    decreases n,
{
    if n == 0 {
        0
    } else {
        count_row(history, i, (n - 1) as nat, which) + if verdict(history, i, n - 1) == Some(which) {
            1nat
        } else {
            0nat
        }
    }
}

/// How many items a message holds that a verdict can fall on.
pub open spec fn user_len(message: MessageModel) -> nat {
    match message {
        MessageModel::User(items) => items.len(),
        _ => 0,
    }
}

/// How many items of the first `n` messages have a verdict.
pub open spec fn count_verdicts(history: Seq<MessageModel>, n: nat, which: Unpairable) -> nat
    decreases n,
{
    if n == 0 {
        0
    } else {
        count_verdicts(history, (n - 1) as nat, which) + count_row(history, n - 1, user_len(history[n - 1]), which)
    }
}

/// How many items the messages of a history hold.
pub open spec fn item_count(history: Seq<MessageModel>) -> nat
    decreases history.len(),
{
    if history.len() == 0 {
        0
    } else {
        item_count(history.drop_last()) + match history.last() {
            MessageModel::System(_) => 0,
            MessageModel::User(items) => items.len(),
            MessageModel::Assistant(_, items) => items.len(),
        }
    }
}

// ---------------------------------------------------------------------------
// Facts about the definitions
// ---------------------------------------------------------------------------

/// Going past item `j` of message `i` adds what that item answers.
proof fn answered_step(history: Seq<MessageModel>, i: int, j: int)
    requires
        0 <= j,
    ensures
        forall|call: (int, int)| #[trigger]
            answered_before(history, i, j + 1, call) == (answered_before(history, i, j, call) || answers_before(
                history,
                i,
                j,
                i,
                j + 1,
                call,
            )),
{
    let next = j + 1;
    assert forall|call: (int, int)| #[trigger] answered_before(history, i, j + 1, call) == (answered_before(
        history,
        i,
        j,
        call,
    ) || answers_before(history, i, j, i, j + 1, call)) by {
        if answered_before(history, i, j, call) {
            let (a, b) = choose|a: int, b: int| answers_before(history, a, b, i, j, call);
            assert(answers_before(history, a, b, i, next, call));
        }
        if answered_before(history, i, next, call) {
            let (a, b) = choose|a: int, b: int| answers_before(history, a, b, i, next, call);
            if a != i || b != j {
                assert(answers_before(history, a, b, i, j, call));
            }
        }
    }
}

/// Past the last item of message `i` lies the first of the next.
proof fn answered_next(history: Seq<MessageModel>, i: int)
    requires
        0 <= i < history.len(),
    ensures
        forall|call: (int, int)| #[trigger]
            answered_before(history, i + 1, 0, call) == answered_before(history, i, user_len(history[i]) as int, call),
{
    let n = user_len(history[i]) as int;
    let next = i + 1;
    assert forall|call: (int, int)| #[trigger] answered_before(history, i + 1, 0, call) == answered_before(
        history,
        i,
        n,
        call,
    ) by {
        if answered_before(history, i, n, call) {
            let (a, b) = choose|a: int, b: int| answers_before(history, a, b, i, n, call);
            assert(answers_before(history, a, b, next, 0, call));
        }
        if answered_before(history, next, 0, call) {
            let (a, b) = choose|a: int, b: int| answers_before(history, a, b, next, 0, call);
            assert(result_at(history, a, b) is Some);
            assert(answers_before(history, a, b, i, n, call));
        }
    }
}

/// Nothing is answered before the first message.
proof fn answered_start(history: Seq<MessageModel>)
    ensures
        forall|call: (int, int)| !(#[trigger] answered_before(history, 0, 0, call)),
{
    assert forall|call: (int, int)| !(#[trigger] answered_before(history, 0, 0, call)) by {
        if answered_before(history, 0, 0, call) {
            let (a, b) = choose|a: int, b: int| answers_before(history, a, b, 0, 0, call);
            assert(result_at(history, a, b) is Some);
        }
    }
}

/// The first messages of a history hold no more than all of them.
proof fn item_count_grows(history: Seq<MessageModel>, n: int)
    requires
        0 <= n <= history.len(),
    ensures
        item_count(history.take(n)) <= item_count(history),
        n < history.len() ==> item_count(history.take(n + 1)) == item_count(history.take(n)) + match history[n] {
            MessageModel::System(_) => 0,
            MessageModel::User(items) => items.len(),
            MessageModel::Assistant(_, items) => items.len(),
        },
    decreases history.len() - n,
{
    if n < history.len() {
        item_count_grows(history, n + 1);
        assert(history.take(n + 1).drop_last() =~= history.take(n));
    } else {
        assert(history.take(n) =~= history);
    }
}

// ---------------------------------------------------------------------------
// The passes
// ---------------------------------------------------------------------------

/// A position as a place in a history.
pub open spec fn as_place(position: (usize, usize)) -> (int, int) {
    (position.0 as int, position.1 as int)
}

/// The first position listed for an identifier.
pub open spec fn listed(positions: Seq<(String, (usize, usize))>, key: Seq<char>) -> Option<(int, int)>
    decreases positions.len(),
{
    if positions.len() == 0 {
        None
    } else {
        match listed(positions.drop_last(), key) {
            Some(place) => Some(place),
            None => if positions.last().0@ == key {
                Some(as_place(positions.last().1))
            } else {
                None
            },
        }
    }
}

proof fn listed_push(positions: Seq<(String, (usize, usize))>, entry: (String, (usize, usize)))
    ensures
        forall|key: Seq<char>| #[trigger]
            listed(positions.push(entry), key) == match listed(positions, key) {
                Some(place) => Some(place),
                None => if entry.0@ == key {
                    Some(as_place(entry.1))
                } else {
                    None
                },
            },
{
    assert(positions.push(entry).drop_last() =~= positions);
}

/// Every identifier a provider might pair against, with the position of the
/// call that carries it.
///
/// The two halves of a pair do not always carry the same field: a result can
/// hold a `call_id` where its call holds only an `id`. Collecting both from the
/// call side and accepting either from the result side keeps the match as
/// permissive as the wire format allows.
pub fn call_positions(history: &Vec<Message>) -> (positions: Vec<(String, (usize, usize))>)
    ensures
        forall|key: Seq<char>| #[trigger]
            listed(positions@, key) == first_carrier(history::messages(history@), key),
{
    let mut positions: Vec<(String, (usize, usize))> = Vec::new();
    let ghost model = history::messages(history@);
    let mut i: usize = 0;
    while i < history.len()
        invariant
            model == history::messages(history@),
            i <= history@.len(),
            forall|key: Seq<char>| #[trigger]
                listed(positions@, key) == first_carrier(model.take(i as int), key),
        decreases history@.len() - i,
    {
        assert(model.take(i + 1).drop_last() =~= model.take(i as int));
        if let Message::Assistant { content, .. } = &history[i] {
            let ghost items = history::assistant_items(content@);
            assert(model[i as int] is Assistant && model[i as int]->Assistant_1 == items);
            let mut j: usize = 0;
            while j < content.len()
                invariant
                    i < history@.len(),
                    model == history::messages(history@),
                    items == history::assistant_items(content@),
                    j <= content@.len(),
                    forall|key: Seq<char>| #[trigger]
                        listed(positions@, key) == match first_carrier(model.take(i as int), key) {
                            Some(place) => Some(place),
                            None => match first_call(items.take(j as int), key) {
                                Some(k) => Some((i as int, k)),
                                None => None,
                            },
                        },
                decreases content@.len() - j,
            {
                assert(items.take(j + 1).drop_last() =~= items.take(j as int));
                if let AssistantContent::ToolCall(call) = &content[j] {
                    assert(items[j as int] == AssistantModel::ToolCall(call@));
                    if !call.id.as_str().is_empty() {
                        proof {
                            listed_push(positions@, (call.id, (i, j)));
                        }
                        positions.push((call.id.clone(), (i, j)));
                    }
                    if let Some(call_id) = &call.call_id {
                        if !call_id.as_str().is_empty() {
                            proof {
                                listed_push(positions@, (*call_id, (i, j)));
                            }
                            positions.push((call_id.clone(), (i, j)));
                        }
                    }
                } else {
                    assert(!(items[j as int] is ToolCall));
                }
                j = j + 1;
            }
            assert(items.take(j as int) =~= items);
        } else {
            assert(!(model[i as int] is Assistant));
        }
        i = i + 1;
    }
    assert(model.take(i as int) =~= model);
    positions
}

/// The identifier a pair is keyed on.
pub fn call_key(call: &ToolCall) -> (key: String)
    ensures
        key@ == pair_key(call@.id, call@.call_id),
{
    if let Some(call_id) = &call.call_id {
        if !call_id.as_str().is_empty() {
            return call_id.clone();
        }
    }
    call.id.clone()
}

/// The identifier a result answers under.
pub fn result_key(result: &ToolResult) -> (key: String)
    ensures
        key@ == pair_key(result@.id, result@.call_id),
{
    if let Some(call_id) = &result.call_id {
        if !call_id.as_str().is_empty() {
            return call_id.clone();
        }
    }
    result.id.clone()
}

/// The first position listed for an identifier.
fn look_up(positions: &Vec<(String, (usize, usize))>, key: &String) -> (position: Option<(usize, usize)>)
    ensures
        match position {
            Some(position) => listed(positions@, key@) == Some(as_place(position)),
            None => listed(positions@, key@) is None,
        },
{
    let mut i: usize = 0;
    while i < positions.len()
        invariant
            i <= positions@.len(),
            listed(positions@.take(i as int), key@) is None,
        decreases positions@.len() - i,
    {
        assert(positions@.take(i + 1).drop_last() =~= positions@.take(i as int));
        if positions[i].0 == *key {
            proof {
                listed_prefix(positions@, i + 1, key@);
            }
            return Some(positions[i].1);
        }
        i = i + 1;
    }
    assert(positions@.take(i as int) =~= positions@);
    None
}

/// A position listed early stays the first one.
proof fn listed_prefix(positions: Seq<(String, (usize, usize))>, n: int, key: Seq<char>)
    requires
        0 <= n <= positions.len(),
        listed(positions.take(n), key) is Some,
    ensures
        listed(positions, key) == listed(positions.take(n), key),
    decreases positions.len() - n,
{
    if n < positions.len() {
        assert(positions.take(n + 1).drop_last() =~= positions.take(n));
        listed_prefix(positions, n + 1, key);
    } else {
        assert(positions.take(n) =~= positions);
    }
}

/// A position that may be none as a place in a history.
spec fn place_of(position: Option<(usize, usize)>) -> Option<(int, int)> {
    match position {
        Some(position) => Some(as_place(position)),
        None => None,
    }
}

/// Where the call this result claims sits, under either identifier.
fn claiming_call(
    result: &ToolResult,
    positions: &Vec<(String, (usize, usize))>,
    Ghost(history): Ghost<Seq<MessageModel>>,
) -> (position: Option<(usize, usize)>)
    requires
        forall|key: Seq<char>| #[trigger] listed(positions@, key) == first_carrier(history, key),
    ensures
        place_of(position) == claimed_call(history, result@),
{
    match look_up(positions, &result.id) {
        Some(position) => Some(position),
        None => match &result.call_id {
            Some(call_id) => look_up(positions, call_id),
            None => None,
        },
    }
}

/// Whether some of the positions is a place.
spec fn holds_place(positions: Seq<(usize, usize)>, place: (int, int)) -> bool {
    exists|k: int| 0 <= k < positions.len() && as_place(#[trigger] positions[k]) == place
}

/// Whether a position is among others.
fn is_listed(positions: &Vec<(usize, usize)>, position: (usize, usize)) -> (found: bool)
    ensures
        found == holds_place(positions@, as_place(position)),
{
    let mut i: usize = 0;
    while i < positions.len()
        invariant
            i <= positions@.len(),
            forall|k: int| 0 <= k < i ==> as_place(#[trigger] positions@[k]) != as_place(position),
        decreases positions@.len() - i,
    {
        if positions[i].0 == position.0 && positions[i].1 == position.1 {
            assert(as_place(positions@[i as int]) == as_place(position));
            return true;
        }
        i = i + 1;
    }
    false
}

/// Whether a string is among others.
fn is_among(strings: &Vec<String>, s: &String) -> (found: bool)
    ensures
        found == text::texts(strings@).contains(s@),
{
    let mut i: usize = 0;
    while i < strings.len()
        invariant
            i <= strings@.len(),
            forall|k: int| 0 <= k < i ==> text::texts(strings@)[k] != s@,
        decreases strings@.len() - i,
    {
        if strings[i] == *s {
            assert(text::texts(strings@)[i as int] == s@);
            return true;
        }
        i = i + 1;
    }
    false
}

/// The verdict on the result that is item `j` of message `index`, given what
/// was answered before it.
fn classify(
    result: &ToolResult,
    index: usize,
    positions: &Vec<(String, (usize, usize))>,
    answered: &mut Vec<(usize, usize)>,
    Ghost(history): Ghost<Seq<MessageModel>>,
    Ghost(j): Ghost<int>,
) -> (found: Option<Unpairable>)
    requires
        0 <= j,
        result_at(history, index as int, j) == Some(result@),
        forall|key: Seq<char>| #[trigger] listed(positions@, key) == first_carrier(history, key),
        forall|call: (int, int)|
            holds_place(old(answered)@, call) == #[trigger] answered_before(history, index as int, j, call),
    ensures
        found == verdict(history, index as int, j),
        forall|call: (int, int)|
            holds_place(final(answered)@, call) == #[trigger] answered_before(history, index as int, j + 1, call),
{
    proof {
        answered_step(history, index as int, j);
    }
    match claiming_call(result, positions, Ghost(history)) {
        None => {
            assert(!follows_call(history, index as int, j));
            Some(Unpairable::Orphan)
        },
        Some(claimed) => {
            if index <= claimed.0 {
                assert(!follows_call(history, index as int, j));
                return Some(Unpairable::Stale);
            }
            let key = result_key(result);
            let call: (usize, usize) = match look_up(positions, &key) {
                Some(call) => call,
                None => claimed,
            };
            assert(answered_call(history, result@) == Some(as_place(call)));
            assert(answers_before(history, index as int, j, index as int, j + 1, as_place(call)));
            if is_listed(answered, call) {
                return Some(Unpairable::Duplicate);
            }
            let ghost before = answered@;
            answered.push(call);
            proof {
                assert forall|other: (int, int)| #[trigger] holds_place(answered@, other) == (holds_place(before, other)
                    || other == as_place(call)) by {
                    if holds_place(before, other) {
                        let k = choose|k: int| 0 <= k < before.len() && as_place(#[trigger] before[k]) == other;
                        assert(answered@[k] == before[k]);
                    }
                    if other == as_place(call) {
                        assert(as_place(answered@[before.len() as int]) == other);
                    }
                    if holds_place(answered@, other) && other != as_place(call) {
                        let k = choose|k: int| 0 <= k < answered@.len() && as_place(#[trigger] answered@[k]) == other;
                        assert(before[k] == answered@[k]);
                    }
                }
            }
            None
        },
    }
}

/// The text of a tool result, up to the limit.
pub fn bounded_result_text(result: &ToolResult) -> (text: String)
    ensures
        text@ == bounded(gathered(result@.content)),
{
    let mut text = String::new();
    let ghost parts = result@.content;
    let mut i: usize = 0;
    let mut full = false;
    while i < result.content.len() && !full
        invariant
            parts == result@.content,
            i <= result.content@.len(),
            text@ == gathered(parts.take(i as int)),
            full == (text@.len() >= MAX_UNTRUSTED_RESULT_CHARS),
        decreases result.content@.len() - i,
    {
        assert(parts.take(i + 1).drop_last() =~= parts.take(i as int));
        assert(parts[i as int] == result.content@[i as int]@);
        let ghost before = text@;
        if !text.as_str().is_empty() {
            text.push('\n');
        }
        match &result.content[i] {
            ToolResultContent::Text(value) => text.push_str(value.as_str()),
            ToolResultContent::Image(_) => text.push_str("[historical image result omitted]"),
        }
        assert(before.len() == 0 ==> text@ =~= part_text(parts[i as int]));
        full = text.as_str().unicode_len() >= MAX_UNTRUSTED_RESULT_CHARS;
        i = i + 1;
    }
    proof {
        gathered_full(parts, i as int);
        assert(parts.take(parts.len() as int) =~= parts);
    }
    let len: usize = text.as_str().unicode_len();
    if len > MAX_UNTRUSTED_RESULT_CHARS {
        let mut cut = text.as_str().substring_char(0, MAX_UNTRUSTED_RESULT_CHARS).to_owned();
        assert(cut@ =~= text@.take(MAX_UNTRUSTED_RESULT_CHARS as int));
        cut.push_str("…[truncated]");
        cut
    } else {
        text
    }
}

/// Once the limit is reached, later parts add nothing.
proof fn gathered_full(parts: Seq<PartModel>, n: int)
    requires
        0 <= n <= parts.len(),
        n == parts.len() || gathered(parts.take(n)).len() >= MAX_UNTRUSTED_RESULT_CHARS,
    ensures
        gathered(parts) == gathered(parts.take(n)),
    decreases parts.len() - n,
{
    if n < parts.len() {
        assert(parts.take(n + 1).drop_last() =~= parts.take(n));
        gathered_full(parts, n + 1);
    } else {
        assert(parts.take(n) =~= parts);
    }
}

/// Rewrites a result as delimited historical data.
///
/// The delimiters are what make this safe to keep: the content came from a
/// tool, so it is not trusted input, and without a frame around it a shell
/// transcript can read as instructions once it is plain text.
pub fn historical_note(result: &ToolResult, verdict: Unpairable) -> (item: UserContent)
    ensures
        item@ == UserModel::Text(note(result@, verdict)),
{
    let mut text = "[BEGIN UNTRUSTED HISTORICAL TOOL OUTPUT — ".to_owned();
    text.push_str(verdict.reason());
    text.push_str("; call id: ");
    text.push_str(result_key(result).as_str());
    text.push_str("]\n");
    text.push_str(bounded_result_text(result).as_str());
    text.push_str("\n[END UNTRUSTED HISTORICAL TOOL OUTPUT]");
    UserContent::Text(text)
}

/// The verdict on every item of a history, and how many there are of each.
fn judge(history: &Vec<Message>) -> (found: (Vec<Vec<Option<Unpairable>>>, ToolHistoryRepair))
    requires
        item_count(history::messages(history@)) <= usize::MAX,
    ensures
        found.0@.len() == history@.len(),
        forall|i: int| 0 <= i < history@.len() ==> (#[trigger] found.0@[i])@.len() == user_len(
            history::messages(history@)[i],
        ),
        forall|i: int, j: int|
            0 <= i < history@.len() && 0 <= j < found.0@[i]@.len() ==> #[trigger] found.0@[i]@[j] == verdict(
                history::messages(history@),
                i,
                j,
            ),
        found.1.unanswered_calls == 0,
        found.1.orphan_results == count_verdicts(
            history::messages(history@),
            history@.len(),
            Unpairable::Orphan,
        ),
        found.1.stale_results == count_verdicts(
            history::messages(history@),
            history@.len(),
            Unpairable::Stale,
        ),
        found.1.duplicate_results == count_verdicts(
            history::messages(history@),
            history@.len(),
            Unpairable::Duplicate,
        ),
        found.1.sum() <= usize::MAX,
        found.1.sum() == 0 <==> paired(history::messages(history@)),
{
    let positions = call_positions(history);
    let ghost model = history::messages(history@);
    let mut report = ToolHistoryRepair::default();
    let mut answered: Vec<(usize, usize)> = Vec::new();
    let mut verdicts: Vec<Vec<Option<Unpairable>>> = Vec::new();
    proof {
        answered_start(model);
        assert(model.take(0) =~= Seq::<MessageModel>::empty());
    }
    let mut i: usize = 0;
    while i < history.len()
        invariant
            model == history::messages(history@),
            item_count(model) <= usize::MAX,
            i <= history@.len(),
            forall|key: Seq<char>| #[trigger] listed(positions@, key) == first_carrier(model, key),
            forall|call: (int, int)|
                holds_place(answered@, call) == #[trigger] answered_before(model, i as int, 0, call),
            verdicts@.len() == i,
            forall|a: int| 0 <= a < i ==> (#[trigger] verdicts@[a])@.len() == user_len(model[a]),
            forall|a: int, b: int|
                0 <= a < i && 0 <= b < verdicts@[a]@.len() ==> #[trigger] verdicts@[a]@[b] == verdict(model, a, b),
            report.unanswered_calls == 0,
            report.orphan_results == count_verdicts(model, i as nat, Unpairable::Orphan),
            report.stale_results == count_verdicts(model, i as nat, Unpairable::Stale),
            report.duplicate_results == count_verdicts(model, i as nat, Unpairable::Duplicate),
            report.sum() <= item_count(model.take(i as int)),
            report.sum() == 0 <==> (forall|a: int, b: int| a < i ==> (#[trigger] verdict(model, a, b)) is None),
        decreases history@.len() - i,
    {
        proof {
            item_count_grows(model, i as int);
            item_count_grows(model, i + 1);
            answered_next(model, i as int);
        }
        let mut row: Vec<Option<Unpairable>> = Vec::new();
        let ghost base = report;
        if let Message::User { content } = &history[i] {
            let ghost items = history::user_items(content@);
            assert(model[i as int] == MessageModel::User(items));
            let mut j: usize = 0;
            while j < content.len()
                invariant
                    i < history@.len(),
                    model == history::messages(history@),
                    model[i as int] == MessageModel::User(items),
                    items == history::user_items(content@),
                    j <= content@.len(),
                    forall|key: Seq<char>| #[trigger] listed(positions@, key) == first_carrier(model, key),
                    forall|call: (int, int)|
                        holds_place(answered@, call) == #[trigger] answered_before(model, i as int, j as int, call),
                    row@.len() == j,
                    forall|b: int| 0 <= b < j ==> #[trigger] row@[b] == verdict(model, i as int, b),
                    report.unanswered_calls == 0,
                    report.orphan_results == base.orphan_results + count_row(
                        model,
                        i as int,
                        j as nat,
                        Unpairable::Orphan,
                    ),
                    report.stale_results == base.stale_results + count_row(
                        model,
                        i as int,
                        j as nat,
                        Unpairable::Stale,
                    ),
                    report.duplicate_results == base.duplicate_results + count_row(
                        model,
                        i as int,
                        j as nat,
                        Unpairable::Duplicate,
                    ),
                    base.unanswered_calls == 0,
                    base.sum() + items.len() <= usize::MAX,
                    base.sum() <= report.sum() <= base.sum() + j,
                    report.sum() == base.sum() <==> (forall|b: int|
                        b < j ==> (#[trigger] verdict(model, i as int, b)) is None),
                decreases content@.len() - j,
            {
                assert(items[j as int] == content@[j as int]@);
                proof {
                    answered_step(model, i as int, j as int);
                }
                let verdict = match &content[j] {
                    UserContent::ToolResult(result) => classify(
                        result,
                        i,
                        &positions,
                        &mut answered,
                        Ghost(model),
                        Ghost(j as int),
                    ),
                    _ => {
                        assert(result_at(model, i as int, j as int) is None);
                        None
                    },
                };
                match verdict {
                    Some(Unpairable::Orphan) => {
                        report.orphan_results = report.orphan_results + 1;
                    },
                    Some(Unpairable::Stale) => {
                        report.stale_results = report.stale_results + 1;
                    },
                    Some(Unpairable::Duplicate) => {
                        report.duplicate_results = report.duplicate_results + 1;
                    },
                    None => {},
                }
                row.push(verdict);
                j = j + 1;
            }
            assert forall|b: int| b >= items.len() implies (#[trigger] verdict(model, i as int, b)) is None by {}
        } else {
            assert(user_len(model[i as int]) == 0);
            assert forall|b: int| (#[trigger] verdict(model, i as int, b)) is None by {}
        }
        verdicts.push(row);
        i = i + 1;
    }
    proof {
        assert(model.take(i as int) =~= model);
        assert forall|a: int, b: int| a >= model.len() implies (#[trigger] verdict(model, a, b)) is None by {}
    }
    (verdicts, report)
}

/// Rewrites tool results this request cannot pair as delimited plain text.
///
/// Returns the repaired history and what changed, or `None` when every result
/// already pairs.
pub fn repair_orphaned_tool_results(history: &Vec<Message>) -> (repair: Option<
    (Vec<Message>, ToolHistoryRepair),
>)
    requires
        well_formed(history::messages(history@)),
        item_count(history::messages(history@)) <= usize::MAX,
    ensures
        repair is None <==> paired(history::messages(history@)),
        repair matches Some((mended, report)) ==> {
            let model = history::messages(history@);
            &&& history::messages(mended@) == repaired(model)
            &&& report.orphan_results == count_verdicts(model, model.len(), Unpairable::Orphan)
            &&& report.stale_results == count_verdicts(model, model.len(), Unpairable::Stale)
            &&& report.duplicate_results == count_verdicts(model, model.len(), Unpairable::Duplicate)
            &&& report.unanswered_calls == 0
        },
{
    let (verdicts, report) = judge(history);
    let ghost model = history::messages(history@);
    if !report.changed() {
        return None;
    }
    let mut mended: Vec<Message> = Vec::new();
    let mut i: usize = 0;
    while i < history.len()
        invariant
            model == history::messages(history@),
            i <= history@.len(),
            verdicts@.len() == history@.len(),
            forall|a: int| 0 <= a < history@.len() ==> (#[trigger] verdicts@[a])@.len() == user_len(model[a]),
            forall|a: int, b: int|
                0 <= a < history@.len() && 0 <= b < verdicts@[a]@.len() ==> #[trigger] verdicts@[a]@[b] == verdict(
                    model,
                    a,
                    b,
                ),
            mended@.len() == i,
            forall|a: int| 0 <= a < i ==> (#[trigger] mended@[a])@ == repaired_message(model, a),
        decreases history@.len() - i,
    {
        assert(model[i as int] == history@[i as int]@);
        if let Message::User { content } = &history[i] {
            let ghost items = history::user_items(content@);
            let mut rewritten: Vec<UserContent> = Vec::new();
            let mut j: usize = 0;
            while j < content.len()
                invariant
                    i < history@.len(),
                    verdicts@.len() == history@.len(),
                    model == history::messages(history@),
                    model[i as int] == MessageModel::User(items),
                    items == history::user_items(content@),
                    j <= content@.len(),
                    verdicts@[i as int]@.len() == items.len(),
                    forall|a: int, b: int|
                        0 <= a < history@.len() && 0 <= b < verdicts@[a]@.len() ==> #[trigger] verdicts@[a]@[b]
                            == verdict(model, a, b),
                    rewritten@.len() == j,
                    forall|b: int|
                        0 <= b < j ==> (#[trigger] rewritten@[b])@ == repaired_item(model, i as int, b, items[b]),
                decreases content@.len() - j,
            {
                assert(items[j as int] == content@[j as int]@);
                let found = verdicts[i][j];
                let item = match (&content[j], found) {
                    (UserContent::ToolResult(result), Some(found)) => historical_note(result, found),
                    (item, _) => item.clone(),
                };
                assert(found is Some ==> result_at(model, i as int, j as int) is Some);
                rewritten.push(item);
                j = j + 1;
            }
            assert(history::user_items(rewritten@) =~= Seq::new(
                items.len(),
                |b: int| repaired_item(model, i as int, b, items[b]),
            ));
            mended.push(Message::User { content: rewritten });
        } else {
            mended.push(history[i].clone());
        }
        i = i + 1;
    }
    assert(history::messages(mended@) =~= repaired(model));
    Some((mended, report))
}

/// Reports the first pairing violation a provider would reject, if any.
///
/// Used for observability after a cut rather than as a gate: a call still
/// awaiting its result is valid mid-loop, so an unanswered trailing call is
/// deliberately not a violation here.
pub fn validate_tool_history(history: &Vec<Message>) -> (checked: Result<(), String>)
    ensures
        checked is Ok <==> paired(history::messages(history@)),
        checked matches Err(violation) ==> exists|i: int, j: int|
            first_violation(history::messages(history@), i, j) && violation@ == violation_text(
                history::messages(history@),
                i,
                j,
            ),
{
    let positions = call_positions(history);
    let ghost model = history::messages(history@);
    let mut answered: Vec<(usize, usize)> = Vec::new();
    proof {
        answered_start(model);
    }
    let mut i: usize = 0;
    while i < history.len()
        invariant
            model == history::messages(history@),
            i <= history@.len(),
            forall|key: Seq<char>| #[trigger] listed(positions@, key) == first_carrier(model, key),
            forall|call: (int, int)|
                holds_place(answered@, call) == #[trigger] answered_before(model, i as int, 0, call),
            forall|a: int, b: int| a < i ==> (#[trigger] verdict(model, a, b)) is None,
        decreases history@.len() - i,
    {
        proof {
            answered_next(model, i as int);
        }
        if let Message::User { content } = &history[i] {
            let ghost items = history::user_items(content@);
            assert(model[i as int] == MessageModel::User(items));
            let mut j: usize = 0;
            while j < content.len()
                invariant
                    i < history@.len(),
                    model == history::messages(history@),
                    model[i as int] == MessageModel::User(items),
                    items == history::user_items(content@),
                    j <= content@.len(),
                    forall|key: Seq<char>| #[trigger] listed(positions@, key) == first_carrier(model, key),
                    forall|call: (int, int)|
                        holds_place(answered@, call) == #[trigger] answered_before(model, i as int, j as int, call),
                    forall|a: int, b: int| earlier(a, b, i as int, j as int) ==> (#[trigger] verdict(model, a, b)) is None,
                decreases content@.len() - j,
            {
                assert(items[j as int] == content@[j as int]@);
                proof {
                    answered_step(model, i as int, j as int);
                }
                if let UserContent::ToolResult(result) = &content[j] {
                    match classify(result, i, &positions, &mut answered, Ghost(model), Ghost(j as int)) {
                        Some(verdict) => {
                            let mut violation = result_key(result);
                            violation.push_str(": ");
                            violation.push_str(verdict.reason());
                            assert(first_violation(model, i as int, j as int));
                            return Err(violation);
                        },
                        None => {},
                    }
                } else {
                    assert(result_at(model, i as int, j as int) is None);
                }
                j = j + 1;
            }
        } else {
            assert(user_len(model[i as int]) == 0);
        }
        i = i + 1;
    }
    Ok(())
}

/// Whether item `j` of message `i` is the first with a verdict.
pub open spec fn first_violation(history: Seq<MessageModel>, i: int, j: int) -> bool {
    &&& verdict(history, i, j) is Some
    &&& forall|a: int, b: int| earlier(a, b, i, j) ==> (#[trigger] verdict(history, a, b)) is None
}

/// How a violation reads.
pub open spec fn violation_text(history: Seq<MessageModel>, i: int, j: int) -> Seq<char> {
    pair_key(result_at(history, i, j)->0.id, result_at(history, i, j)->0.call_id) + ": "@ + verdict(
        history,
        i,
        j,
    )->0.wording()
}

// ---------------------------------------------------------------------------
// Calls that nothing answers
// ---------------------------------------------------------------------------

/// Whether some result of a history carries an identifier.
pub open spec fn answers(history: Seq<MessageModel>, key: Seq<char>) -> bool {
    exists|i: int, j: int| result_carries(#[trigger] result_at(history, i, j), key)
}

/// Whether a result carries an identifier.
pub open spec fn result_carries(result: Option<ResultModel>, key: Seq<char>) -> bool {
    result matches Some(result) && (result.id == key || result.call_id == Some(key))
}

/// Whether a call has an answer under any identifier it carries.
pub open spec fn call_answered(history: Seq<MessageModel>, call: CallModel) -> bool {
    answers(history, call.id) || (call.call_id matches Some(call_id) && answers(history, call_id))
}

/// Whether an item of an assistant message stays.
pub open spec fn stays(history: Seq<MessageModel>, item: AssistantModel) -> bool {
    match item {
        AssistantModel::ToolCall(call) => call_answered(history, call),
        _ => true,
    }
}

/// The items that stay.
pub open spec fn staying(history: Seq<MessageModel>, items: Seq<AssistantModel>) -> Seq<AssistantModel> {
    items.filter(|item: AssistantModel| stays(history, item))
}

/// Whether message `i` is the last assistant message.
pub open spec fn is_last_assistant(history: Seq<MessageModel>, i: int) -> bool {
    &&& 0 <= i < history.len()
    &&& history[i] is Assistant
    &&& forall|k: int| i < k < history.len() ==> !(#[trigger] history[k] is Assistant)
}

/// What is left of message `i`: at most one message.
pub open spec fn pruned_message(history: Seq<MessageModel>, i: int) -> Seq<MessageModel> {
    match history[i] {
        MessageModel::Assistant(id, items) => if is_last_assistant(history, i) {
            seq![history[i]]
        } else if staying(history, items).len() > 0 {
            seq![MessageModel::Assistant(id, staying(history, items))]
        } else {
            Seq::empty()
        },
        message => seq![message],
    }
}

/// What is left of the first `n` messages.
pub open spec fn pruned(history: Seq<MessageModel>, n: nat) -> Seq<MessageModel>
    decreases n,
{
    if n == 0 {
        Seq::empty()
    } else {
        pruned(history, (n - 1) as nat) + pruned_message(history, n - 1)
    }
}

/// How many calls the first `n` messages lose.
pub open spec fn dropped_calls(history: Seq<MessageModel>, n: nat) -> nat
    decreases n,
{
    if n == 0 {
        0
    } else {
        dropped_calls(history, (n - 1) as nat) + match history[n - 1] {
            MessageModel::Assistant(_, items) => if is_last_assistant(history, n - 1) {
                0
            } else {
                (items.len() - staying(history, items).len()) as nat
            },
            _ => 0,
        }
    }
}

/// Whether a result before item `j` of message `i` carries an identifier.
spec fn answers_upto(history: Seq<MessageModel>, i: int, j: int, key: Seq<char>) -> bool {
    exists|a: int, b: int| earlier(a, b, i, j) && result_carries(#[trigger] result_at(history, a, b), key)
}

/// Adds a string to those already there.
fn remember(strings: &mut Vec<String>, s: &String)
    ensures
        forall|key: Seq<char>| #[trigger]
            text::texts(final(strings)@).contains(key) == (text::texts(old(strings)@).contains(key) || key == s@),
{
    let ghost before = text::texts(strings@);
    strings.push(s.clone());
    proof {
        text::texts_push(old(strings)@, *s);
        assert forall|key: Seq<char>| #[trigger] text::texts(strings@).contains(key) == (before.contains(key)
            || key == s@) by {
            if before.contains(key) {
                let k = choose|k: int| 0 <= k < before.len() && before[k] == key;
                assert(before.push(s@)[k] == key);
            }
            if key == s@ {
                assert(before.push(s@)[before.len() as int] == key);
            }
        }
    }
}

/// Every identifier that a result of the history carries.
fn answered_identifiers(history: &Vec<Message>) -> (answered: Vec<String>)
    ensures
        forall|key: Seq<char>| #[trigger]
            text::texts(answered@).contains(key) == answers(history::messages(history@), key),
{
    let ghost model = history::messages(history@);
    let mut answered: Vec<String> = Vec::new();
    assert forall|key: Seq<char>| !answers_upto(model, 0, 0, key) by {}
    let mut i: usize = 0;
    while i < history.len()
        invariant
            model == history::messages(history@),
            i <= history@.len(),
            forall|key: Seq<char>| #[trigger]
                text::texts(answered@).contains(key) == answers_upto(model, i as int, 0, key),
        decreases history@.len() - i,
    {
        if let Message::User { content } = &history[i] {
            let ghost items = history::user_items(content@);
            assert(model[i as int] == MessageModel::User(items));
            let mut j: usize = 0;
            while j < content.len()
                invariant
                    i < history@.len(),
                    model == history::messages(history@),
                    model[i as int] == MessageModel::User(items),
                    items == history::user_items(content@),
                    j <= content@.len(),
                    forall|key: Seq<char>| #[trigger]
                        text::texts(answered@).contains(key) == answers_upto(model, i as int, j as int, key),
                decreases content@.len() - j,
            {
                assert(items[j as int] == content@[j as int]@);
                let ghost held = text::texts(answered@);
                if let UserContent::ToolResult(result) = &content[j] {
                    assert(result_at(model, i as int, j as int) == Some(result@));
                    remember(&mut answered, &result.id);
                    if let Some(call_id) = &result.call_id {
                        remember(&mut answered, call_id);
                    }
                } else {
                    assert(result_at(model, i as int, j as int) is None);
                }
                proof {
                    answers_step(model, i as int, j as int);
                }
                j = j + 1;
            }
        } else {
            assert(user_len(model[i as int]) == 0);
        }
        proof {
            answers_next(model, i as int);
        }
        i = i + 1;
    }
    proof {
        assert forall|key: Seq<char>| answers_upto(model, model.len() as int, 0, key) == answers(model, key) by {
            if answers(model, key) {
                let (a, b) = choose|a: int, b: int| result_carries(#[trigger] result_at(model, a, b), key);
                assert(earlier(a, b, model.len() as int, 0));
            }
        }
    }
    answered
}

proof fn answers_step(history: Seq<MessageModel>, i: int, j: int)
    ensures
        forall|key: Seq<char>| #[trigger]
            answers_upto(history, i, j + 1, key) == (answers_upto(history, i, j, key) || result_carries(
                result_at(history, i, j),
                key,
            )),
{
    assert forall|key: Seq<char>| #[trigger] answers_upto(history, i, j + 1, key) == (answers_upto(
        history,
        i,
        j,
        key,
    ) || result_carries(result_at(history, i, j), key)) by {
        if answers_upto(history, i, j, key) {
            let (a, b) = choose|a: int, b: int|
                earlier(a, b, i, j) && result_carries(#[trigger] result_at(history, a, b), key);
            assert(earlier(a, b, i, j + 1) && result_carries(result_at(history, a, b), key));
        }
    }
}

proof fn answers_next(history: Seq<MessageModel>, i: int)
    requires
        0 <= i < history.len(),
    ensures
        forall|key: Seq<char>| #[trigger]
            answers_upto(history, i + 1, 0, key) == answers_upto(history, i, user_len(history[i]) as int, key),
{
    let n = user_len(history[i]) as int;
    assert forall|key: Seq<char>| #[trigger] answers_upto(history, i + 1, 0, key) == answers_upto(
        history,
        i,
        n,
        key,
    ) by {
        if answers_upto(history, i, n, key) {
            let (a, b) = choose|a: int, b: int|
                earlier(a, b, i, n) && result_carries(#[trigger] result_at(history, a, b), key);
            assert(earlier(a, b, i + 1, 0) && result_carries(result_at(history, a, b), key));
        }
        if answers_upto(history, i + 1, 0, key) {
            let (a, b) = choose|a: int, b: int|
                earlier(a, b, i + 1, 0) && result_carries(#[trigger] result_at(history, a, b), key);
            assert(earlier(a, b, i, n) && result_carries(result_at(history, a, b), key));
        }
    }
}

/// The position of the last assistant message.
fn last_assistant(history: &Vec<Message>) -> (last: Option<usize>)
    ensures
        match last {
            Some(last) => is_last_assistant(history::messages(history@), last as int),
            None => forall|i: int| !is_last_assistant(history::messages(history@), i),
        },
{
    let ghost model = history::messages(history@);
    let mut i: usize = history.len();
    while i > 0
        invariant
            model == history::messages(history@),
            i <= history@.len(),
            forall|k: int| i <= k < model.len() ==> !(#[trigger] model[k] is Assistant),
        decreases i,
    {
        i = i - 1;
        assert(model[i as int] == history@[i as int]@);
        if let Message::Assistant { .. } = &history[i] {
            return Some(i);
        }
    }
    None
}

/// Removes assistant tool calls that nothing in the history answers.
///
/// Anthropic rejects a `tool_use` with no following `tool_result`, which the
/// result-side pass cannot fix because there is no result to rewrite. A call
/// still awaiting its result is the normal shape mid-loop, so this only runs
/// after a provider has already rejected the request, and never touches the
/// final assistant message.
pub fn drop_unanswered_tool_calls(history: &mut Vec<Message>) -> (report: ToolHistoryRepair)
    requires
        item_count(history::messages(old(history)@)) <= usize::MAX,
    ensures
        history::messages(final(history)@) == pruned(
            history::messages(old(history)@),
            old(history)@.len(),
        ),
        report.unanswered_calls == dropped_calls(history::messages(old(history)@), old(history)@.len()),
        report.orphan_results == 0,
        report.stale_results == 0,
        report.duplicate_results == 0,
{
    let ghost model = history::messages(history@);
    let answered = answered_identifiers(history);
    let last = last_assistant(history);
    let mut report = ToolHistoryRepair::default();
    let mut rebuilt: Vec<Message> = Vec::new();
    assert(history::messages(rebuilt@) =~= Seq::<MessageModel>::empty());
    assert(model.take(0) =~= Seq::<MessageModel>::empty());
    let mut i: usize = 0;
    while i < history.len()
        invariant
            model == history::messages(history@),
            item_count(model) <= usize::MAX,
            i <= history@.len(),
            forall|key: Seq<char>| #[trigger] text::texts(answered@).contains(key) == answers(model, key),
            match last {
                Some(last) => is_last_assistant(model, last as int),
                None => forall|k: int| !is_last_assistant(model, k),
            },
            history::messages(rebuilt@) == pruned(model, i as nat),
            report.unanswered_calls == dropped_calls(model, i as nat),
            report.unanswered_calls <= item_count(model.take(i as int)),
            report.orphan_results == 0,
            report.stale_results == 0,
            report.duplicate_results == 0,
        decreases history@.len() - i,
    {
        assert(model[i as int] == history@[i as int]@);
        proof {
            item_count_grows(model, i as int);
            item_count_grows(model, i + 1);
        }
        let ghost done = rebuilt@;
        let is_last = match last {
            Some(last) => last == i,
            None => false,
        };
        assert(is_last == is_last_assistant(model, i as int));
        match &history[i] {
            Message::Assistant { id, content } => {
                let ghost items = history::assistant_items(content@);
                assert(model[i as int] == MessageModel::Assistant(text::opt_text(*id), items));
                if is_last {
                    let whole = history[i].clone();
                    rebuilt.push(whole);
                    assert(history::messages(rebuilt@) =~= history::messages(done) + seq![model[i as int]]);
                } else {
                    let ghost base = report;
                    let mut kept: Vec<AssistantContent> = Vec::new();
                    assert(staying(model, items.take(0)) =~= Seq::<AssistantModel>::empty()) by {
                        reveal(Seq::filter);
                    }
                    assert(history::assistant_items(kept@) =~= Seq::<AssistantModel>::empty());
                    let mut j: usize = 0;
                    while j < content.len()
                        invariant
                            items == history::assistant_items(content@),
                            forall|key: Seq<char>| #[trigger]
                                text::texts(answered@).contains(key) == answers(model, key),
                            j <= content@.len(),
                            history::assistant_items(kept@) == staying(model, items.take(j as int)),
                            kept@.len() <= j,
                            base.unanswered_calls + items.len() <= usize::MAX,
                            report.unanswered_calls == base.unanswered_calls + j - kept@.len(),
                            report.orphan_results == 0,
                            report.stale_results == 0,
                            report.duplicate_results == 0,
                        decreases content@.len() - j,
                    {
                        assert(items[j as int] == content@[j as int]@);
                        assert(items.take(j + 1).drop_last() =~= items.take(j as int));
                        assert(staying(model, items.take(j + 1)) == (if stays(model, items[j as int]) {
                            staying(model, items.take(j as int)).push(items[j as int])
                        } else {
                            staying(model, items.take(j as int))
                        })) by {
                            reveal(Seq::filter);
                        }
                        let stay = match &content[j] {
                            AssistantContent::ToolCall(call) => {
                                is_among(&answered, &call.id) || match &call.call_id {
                                    Some(call_id) => is_among(&answered, call_id),
                                    None => false,
                                }
                            },
                            _ => true,
                        };
                        assert(stay == stays(model, items[j as int]));
                        if stay {
                            let ghost before = kept@;
                            kept.push(content[j].clone());
                            assert(history::assistant_items(kept@) =~= history::assistant_items(before).push(
                                items[j as int],
                            ));
                        } else {
                            report.unanswered_calls = report.unanswered_calls + 1;
                        }
                        j = j + 1;
                    }
                    assert(items.take(j as int) =~= items);
                    assert(kept@.len() == history::assistant_items(kept@).len());
                    if kept.len() > 0 {
                        let shorter = Message::Assistant { id: history::copy_opt(id), content: kept };
                        assert(shorter@ == MessageModel::Assistant(text::opt_text(*id), staying(model, items)));
                        rebuilt.push(shorter);
                        assert(history::messages(rebuilt@) =~= history::messages(done) + seq![shorter@]);
                    } else {
                        assert(history::messages(done) + Seq::<MessageModel>::empty() =~= history::messages(done));
                    }
                }
            },
            _ => {
                let whole = history[i].clone();
                rebuilt.push(whole);
                assert(history::messages(rebuilt@) =~= history::messages(done) + seq![model[i as int]]);
            },
        }
        i = i + 1;
    }
    *history = rebuilt;
    report
}

// ---------------------------------------------------------------------------
// Laws
// ---------------------------------------------------------------------------

/// Calls sit where they sat once a history is repaired.
proof fn repaired_carriers(history: Seq<MessageModel>, n: int, key: Seq<char>)
    requires
        0 <= n <= history.len(),
    ensures
        first_carrier(repaired(history).take(n), key) == first_carrier(history.take(n), key),
    decreases n,
{
    if n > 0 {
        repaired_carriers(history, n - 1, key);
        assert(history.take(n).drop_last() =~= history.take(n - 1));
        assert(repaired(history).take(n).drop_last() =~= repaired(history).take(n - 1));
        assert(call_in(repaired(history)[n - 1], key) == call_in(history[n - 1], key));
    }
}

/// Whatever history goes in, what a repair gives pairs: no result of it is
/// without its call, before its call, or a second answer.
pub proof fn law_repaired_history_pairs(history: Seq<MessageModel>)
    ensures
        paired(repaired(history)),
{
    let mended = repaired(history);
    assert forall|key: Seq<char>| #[trigger] first_carrier(mended, key) == first_carrier(history, key) by {
        repaired_carriers(history, history.len() as int, key);
        assert(history.take(history.len() as int) =~= history);
        assert(mended.take(history.len() as int) =~= mended);
    }
    assert forall|i: int, j: int| #[trigger] result_at(mended, i, j) is Some implies result_at(mended, i, j)
        == result_at(history, i, j) && verdict(history, i, j) is None by {}
    assert forall|i: int, j: int| (#[trigger] verdict(mended, i, j)) is None by {
        if let Some(result) = result_at(mended, i, j) {
            let call = answered_call(history, result)->0;
            assert(verdict(history, i, j) is None);
            if answered_before(mended, i, j, call) {
                let (a, b) = choose|a: int, b: int| answers_before(mended, a, b, i, j, call);
                assert(answers_before(history, a, b, i, j, call));
            }
        }
    }
}

/// In a history that pairs, no call is answered twice: two results answer two
/// calls, under whichever identifiers they do.
pub proof fn law_no_call_is_answered_twice(history: Seq<MessageModel>, a: int, b: int, i: int, j: int)
    requires
        paired(history),
        earlier(a, b, i, j),
        result_at(history, a, b) is Some,
        result_at(history, i, j) is Some,
    ensures
        answered_call(history, result_at(history, a, b)->0) is Some,
        answered_call(history, result_at(history, a, b)->0) != answered_call(history, result_at(history, i, j)->0),
{
    assert(verdict(history, a, b) is None);
    assert(verdict(history, i, j) is None);
    let call = answered_call(history, result_at(history, i, j)->0)->0;
    if answered_call(history, result_at(history, a, b)->0) == Some(call) {
        assert(answers_before(history, a, b, i, j, call));
    }
}

/// A history that pairs is left as it is.
pub proof fn law_paired_history_is_kept(history: Seq<MessageModel>)
    requires
        paired(history),
    ensures
        repaired(history) == history,
{
    assert forall|i: int| 0 <= i < history.len() implies #[trigger] repaired(history)[i] == history[i] by {
        if let MessageModel::User(items) = history[i] {
            assert forall|j: int| 0 <= j < items.len() implies #[trigger] repaired_item(history, i, j, items[j])
                == items[j] by {
                assert(verdict(history, i, j) is None);
            }
            assert(Seq::new(items.len(), |j: int| repaired_item(history, i, j, items[j])) =~= items);
        }
    }
    assert(repaired(history) =~= history);
}

/// Repairing keeps every message, every assistant and system message as it
/// was, and every user item that is no unpairable result.
pub proof fn law_repair_keeps_messages(history: Seq<MessageModel>)
    ensures
        repaired(history).len() == history.len(),
        forall|i: int|
            0 <= i < history.len() && !(history[i] is User) ==> #[trigger] repaired(history)[i] == history[i],
        forall|i: int|
            0 <= i < history.len() && history[i] is User ==> (#[trigger] repaired(history)[i]) is User && user_len(
                repaired(history)[i],
            ) == user_len(history[i]),
        forall|i: int, j: int|
            0 <= i < history.len() && 0 <= j < user_len(history[i]) && verdict(history, i, j) is None ==> (
            #[trigger] repaired(history)[i]->User_0[j]) == history[i]->User_0[j],
        well_formed(history) ==> well_formed(repaired(history)),
{
}

/// The items that stay are those of the message that have to.
proof fn staying_members(history: Seq<MessageModel>, items: Seq<AssistantModel>)
    ensures
        forall|item: AssistantModel| #[trigger]
            staying(history, items).contains(item) <==> items.contains(item) && stays(history, item),
    decreases items.len(),
{
    reveal(Seq::filter);
    if items.len() > 0 {
        let front = items.drop_last();
        staying_members(history, front);
        let kept = staying(history, front);
        assert forall|item: AssistantModel| #[trigger] staying(history, items).contains(item) <==> items.contains(
            item,
        ) && stays(history, item) by {
            if items.contains(item) && stays(history, item) {
                let k = choose|k: int| 0 <= k < items.len() && items[k] == item;
                if k < items.len() - 1 {
                    assert(front[k] == item);
                    assert(kept.contains(item));
                    let m = choose|m: int| 0 <= m < kept.len() && kept[m] == item;
                    assert(staying(history, items)[m] == item);
                } else {
                    assert(staying(history, items)[kept.len() as int] == item);
                }
            }
            if staying(history, items).contains(item) {
                let m = choose|m: int|
                    0 <= m < staying(history, items).len() && staying(history, items)[m] == item;
                if m < kept.len() {
                    assert(kept[m] == item);
                    assert(front.contains(item));
                    let k = choose|k: int| 0 <= k < front.len() && front[k] == item;
                    assert(items[k] == item);
                } else {
                    assert(items[items.len() - 1] == item);
                }
            }
        }
    }
}

/// Where message `i` stands once the calls are dropped.
spec fn place(history: Seq<MessageModel>, i: int) -> int {
    pruned(history, i as nat).len() as int
}

proof fn place_grows(history: Seq<MessageModel>, i: int, k: int)
    requires
        0 <= i <= k <= history.len(),
    ensures
        place(history, i) <= place(history, k),
        i < k && pruned_message(history, i).len() == 1 ==> place(history, i) < place(history, k),
        i < k && pruned_message(history, i).len() == 1 ==> pruned(history, k as nat)[place(history, i)]
            == pruned_message(history, i)[0],
    decreases k,
{
    if i < k {
        place_grows(history, i, k - 1);
    }
}

/// Every message that is left was a message before.
proof fn source(history: Seq<MessageModel>, n: int, k: int) -> (i: int)
    requires
        0 <= n <= history.len(),
        0 <= k < place(history, n),
    ensures
        0 <= i < n,
        pruned_message(history, i).len() == 1,
        place(history, i) == k,
        pruned(history, n as nat)[k] == pruned_message(history, i)[0],
    decreases n,
{
    if k < place(history, n - 1) {
        source(history, n - 1, k)
    } else {
        n - 1
    }
}

/// Dropping calls leaves the results of a message where they were in it.
proof fn results_keep(history: Seq<MessageModel>, i: int, j: int)
    requires
        0 <= i < history.len(),
        pruned_message(history, i).len() == 1,
    ensures
        result_at(pruned(history, history.len()), place(history, i), j) == result_at(history, i, j),
{
    place_grows(history, i, history.len() as int);
}

/// Where item `j` of message `i` stands in its message once the calls are
/// dropped.
spec fn within(history: Seq<MessageModel>, i: int, j: int) -> int {
    if is_last_assistant(history, i) {
        j
    } else {
        staying(history, history[i]->Assistant_1.take(j)).len() as int
    }
}

/// The first call with an identifier that some result carries stays.
proof fn first_call_keeps(history: Seq<MessageModel>, items: Seq<AssistantModel>, key: Seq<char>)
    requires
        answers(history, key),
    ensures
        first_call(staying(history, items), key) == (match first_call(items, key) {
            Some(j) => Some(staying(history, items.take(j)).len() as int),
            None => None,
        }),
        first_call(items, key) matches Some(j) ==> 0 <= j < items.len() && item_carries(items[j], key) && stays(
            history,
            items[j],
        ) && staying(history, items).len() > 0,
    decreases items.len(),
{
    reveal(Seq::filter);
    if items.len() > 0 {
        let front = items.drop_last();
        first_call_keeps(history, front, key);
        let kept = staying(history, front);
        if stays(history, items.last()) {
            assert(staying(history, items) =~= kept.push(items.last()));
            assert(staying(history, items).drop_last() =~= kept);
        }
        if let Some(j) = first_call(front, key) {
            assert(items.take(j) =~= front.take(j));
        } else {
            assert(items.take(items.len() - 1) =~= front);
        }
    }
}

/// Of two items that stay, the later one stands behind the earlier.
proof fn staying_counts(history: Seq<MessageModel>, items: Seq<AssistantModel>, j: int, k: int)
    requires
        0 <= j < k <= items.len(),
        stays(history, items[j]),
    ensures
        staying(history, items.take(j)).len() < staying(history, items.take(k)).len(),
    decreases k,
{
    reveal(Seq::filter);
    assert(items.take(k).drop_last() =~= items.take(k - 1));
    if j < k - 1 {
        staying_counts(history, items, j, k - 1);
    }
}

/// A call whose identifier some result carries is neither dropped nor moved
/// past another.
proof fn carriers_keep(history: Seq<MessageModel>, n: int, key: Seq<char>)
    requires
        0 <= n <= history.len(),
        answers(history, key),
    ensures
        first_carrier(pruned(history, n as nat), key) == (match first_carrier(history.take(n), key) {
            Some((i, j)) => Some((place(history, i), within(history, i, j))),
            None => None,
        }),
        first_carrier(history.take(n), key) matches Some((i, j)) ==> {
            &&& 0 <= i < n
            &&& pruned_message(history, i).len() == 1
            &&& history[i] is Assistant
            &&& 0 <= j < history[i]->Assistant_1.len()
            &&& stays(history, history[i]->Assistant_1[j])
        },
    decreases n,
{
    if n > 0 {
        carriers_keep(history, n - 1, key);
        let whole = history[n - 1];
        assert(history.take(n).drop_last() =~= history.take(n - 1));
        if let MessageModel::Assistant(id, items) = whole {
            first_call_keeps(history, items, key);
        }
        let left = pruned_message(history, n - 1);
        if left.len() == 1 {
            assert(pruned(history, n as nat).drop_last() =~= pruned(history, (n - 1) as nat));
        } else {
            assert(pruned(history, n as nat) =~= pruned(history, (n - 1) as nat));
        }
    } else {
        assert(history.take(0).len() == 0);
    }
}

/// What becomes of the place of a call.
spec fn moved(history: Seq<MessageModel>, call: Option<(int, int)>) -> Option<(int, int)> {
    match call {
        Some((i, j)) => Some((place(history, i), within(history, i, j))),
        None => None,
    }
}

/// Whether a place is that of a call that stays.
spec fn stands(history: Seq<MessageModel>, call: Option<(int, int)>) -> bool {
    call matches Some((i, j)) ==> {
        &&& 0 <= i < history.len()
        &&& pruned_message(history, i).len() == 1
        &&& history[i] is Assistant
        &&& 0 <= j < history[i]->Assistant_1.len()
        &&& stays(history, history[i]->Assistant_1[j])
    }
}

/// Two calls that stay do not come to stand at one place.
proof fn moved_apart(history: Seq<MessageModel>, one: (int, int), other: (int, int))
    requires
        stands(history, Some(one)),
        stands(history, Some(other)),
        moved(history, Some(one)) == moved(history, Some(other)),
    ensures
        one == other,
{
    if one.0 < other.0 {
        place_grows(history, one.0, other.0);
    } else if other.0 < one.0 {
        place_grows(history, other.0, one.0);
    } else if !is_last_assistant(history, one.0) {
        let items = history[one.0]->Assistant_1;
        if one.1 < other.1 {
            staying_counts(history, items, one.1, other.1);
        } else if other.1 < one.1 {
            staying_counts(history, items, other.1, one.1);
        }
    }
}

/// Dropping unanswered calls leaves every result as well paired as it was:
/// a history that pairs still pairs afterwards.
pub proof fn law_dropping_calls_keeps_pairs(history: Seq<MessageModel>)
    requires
        paired(history),
    ensures
        paired(pruned(history, history.len())),
{
    let n = history.len() as int;
    let left = pruned(history, history.len());
    assert(history.take(n) =~= history);
    assert forall|k: int, j: int| (#[trigger] verdict(left, k, j)) is None by {
        if result_at(left, k, j) is Some {
            let i = source(history, n, k);
            results_keep(history, i, j);
            let result = result_at(history, i, j)->0;
            assert(verdict(history, i, j) is None);
            claims_keep(history, i, j);
            let claimed = claimed_call(history, result)->0;
            let call = answered_call(history, result)->0;
            place_grows(history, claimed.0, i);
            let there = answered_call(left, result)->0;
            if answered_before(left, k, j, there) {
                let (a, b) = choose|a: int, b: int| answers_before(left, a, b, k, j, there);
                let c = source(history, n, a);
                results_keep(history, c, b);
                claims_keep(history, c, b);
                let other = result_at(history, c, b)->0;
                let first = claimed_call(history, other)->0;
                if c > i {
                    place_grows(history, i, c);
                }
                if first.0 >= c {
                    place_grows(history, c, first.0);
                }
                moved_apart(history, call, answered_call(history, other)->0);
                assert(answers_before(history, c, b, i, j, call));
            }
        }
    }
}

/// A result claims and answers the same call before and after.
proof fn claims_keep(history: Seq<MessageModel>, i: int, j: int)
    requires
        result_at(history, i, j) is Some,
    ensures
        ({
            let result = result_at(history, i, j)->0;
            let left = pruned(history, history.len());
            &&& claimed_call(left, result) == moved(history, claimed_call(history, result))
            &&& answered_call(left, result) == moved(history, answered_call(history, result))
            &&& stands(history, claimed_call(history, result))
            &&& stands(history, answered_call(history, result))
            &&& claimed_call(history, result) is Some ==> answered_call(history, result) is Some
        }),
{
    let n = history.len() as int;
    let result = result_at(history, i, j)->0;
    assert(history.take(n) =~= history);
    assert(result_carries(result_at(history, i, j), result.id));
    carriers_keep(history, n, result.id);
    if let Some(call_id) = result.call_id {
        assert(result_carries(result_at(history, i, j), call_id));
        carriers_keep(history, n, call_id);
    }
}

/// What dropping leaves: every call outside the last assistant message is
/// answered, and no message but an assistant message that held nothing but
/// unanswered calls is gone.
pub proof fn law_dropping_leaves_answered_calls(history: Seq<MessageModel>, i: int)
    requires
        0 <= i < history.len(),
    ensures
        pruned_message(history, i).len() == 0 ==> history[i] is Assistant && !is_last_assistant(history, i),
        is_last_assistant(history, i) ==> pruned_message(history, i) == seq![history[i]],
        !(history[i] is Assistant) ==> pruned_message(history, i) == seq![history[i]],
        !is_last_assistant(history, i) && pruned_message(history, i).len() == 1 ==> match pruned_message(
            history,
            i,
        )[0] {
            MessageModel::Assistant(_, items) => forall|j: int|
                0 <= j < items.len() ==> match #[trigger] items[j] {
                    AssistantModel::ToolCall(call) => call_answered(history, call),
                    _ => true,
                },
            _ => true,
        },
        pruned_message(history, i).len() == 1 ==> pruned(history, history.len()).contains(
            pruned_message(history, i)[0],
        ),
{
    if let MessageModel::Assistant(_, items) = history[i] {
        staying_members(history, items);
        let kept = staying(history, items);
        assert forall|j: int| 0 <= j < kept.len() implies stays(history, #[trigger] kept[j]) by {
            assert(kept.contains(kept[j]));
        }
    }
    if pruned_message(history, i).len() == 1 {
        place_grows(history, i, history.len() as int);
    }
}

/// What carries an answer still does once the calls are dropped.
proof fn answers_keep(history: Seq<MessageModel>, key: Seq<char>)
    requires
        answers(history, key),
    ensures
        answers(pruned(history, history.len()), key),
{
    let (i, j) = choose|i: int, j: int| result_carries(#[trigger] result_at(history, i, j), key);
    results_keep(history, i, j);
    assert(result_carries(result_at(pruned(history, history.len()), place(history, i), j), key));
}

/// A list of items that all stay is left as it is.
proof fn all_staying(history: Seq<MessageModel>, items: Seq<AssistantModel>)
    requires
        forall|j: int| 0 <= j < items.len() ==> stays(history, #[trigger] items[j]),
    ensures
        staying(history, items) == items,
    decreases items.len(),
{
    reveal(Seq::filter);
    if items.len() > 0 {
        let front = items.drop_last();
        assert forall|j: int| 0 <= j < front.len() implies stays(history, #[trigger] front[j]) by {
            assert(front[j] == items[j]);
        }
        all_staying(history, front);
        assert(front.push(items.last()) =~= items);
    } else {
        assert(staying(history, items) =~= items);
    }
}

/// No message that is left loses anything the next time.
proof fn message_settled(history: Seq<MessageModel>, k: int)
    requires
        0 <= k < pruned(history, history.len()).len(),
    ensures
        ({
            let left = pruned(history, history.len());
            &&& pruned_message(left, k) == seq![left[k]]
            &&& left[k] is Assistant && !is_last_assistant(left, k) ==> staying(left, left[k]->Assistant_1)
                == left[k]->Assistant_1
        }),
{
    let n = history.len() as int;
    let left = pruned(history, history.len());
    let i = source(history, n, k);
    if let MessageModel::Assistant(id, items) = left[k] {
        if is_last_assistant(history, i) && !is_last_assistant(left, k) {
            let later = choose|later: int| k < later < left.len() && #[trigger] left[later] is Assistant;
            let from = source(history, n, later);
            assert(history[from] is Assistant);
            if from < i {
                place_grows(history, from, i);
            }
            assert(false);
        }
        if !is_last_assistant(left, k) {
            let whole = history[i]->Assistant_1;
            assert(items == staying(history, whole));
            staying_members(history, whole);
            assert forall|j: int| 0 <= j < items.len() implies stays(left, #[trigger] items[j]) by {
                assert(items.contains(items[j]));
                assert(stays(history, items[j]));
                if let AssistantModel::ToolCall(call) = items[j] {
                    if answers(history, call.id) {
                        answers_keep(history, call.id);
                    } else {
                        answers_keep(history, call.call_id->0);
                    }
                }
            }
            all_staying(left, items);
        }
    }
}

proof fn messages_settled(history: Seq<MessageModel>, n: int)
    requires
        0 <= n <= pruned(history, history.len()).len(),
    ensures
        pruned(pruned(history, history.len()), n as nat) == pruned(history, history.len()).take(n),
        dropped_calls(pruned(history, history.len()), n as nat) == 0,
    decreases n,
{
    let left = pruned(history, history.len());
    if n > 0 {
        messages_settled(history, n - 1);
        message_settled(history, n - 1);
        assert(left.take(n) =~= left.take(n - 1) + seq![left[n - 1]]);
    } else {
        assert(left.take(0) =~= Seq::<MessageModel>::empty());
    }
}

/// Dropping settles at once: a second pass over what a first one left drops
/// nothing and changes nothing.
pub proof fn law_dropping_twice_drops_no_more(history: Seq<MessageModel>)
    ensures
        ({
            let left = pruned(history, history.len());
            &&& pruned(left, left.len()) == left
            &&& dropped_calls(left, left.len()) == 0
        }),
{
    let left = pruned(history, history.len());
    messages_settled(history, left.len() as int);
    assert(left.take(left.len() as int) =~= left);
}

/// A piece of a history: a message that no call can be taken out of, or one
/// item of an assistant message, with the id of the message.
pub enum Piece {
    Whole(MessageModel),
    Item(Option<Seq<char>>, AssistantModel),
}

/// The pieces of a message.
pub open spec fn pieces_of(message: MessageModel) -> Seq<Piece> {
    match message {
        MessageModel::Assistant(id, items) => items.map_values(|item: AssistantModel| Piece::Item(id, item)),
        whole => seq![Piece::Whole(whole)],
    }
}

/// The pieces of a history, in order.
pub open spec fn pieces(history: Seq<MessageModel>) -> Seq<Piece>
    decreases history.len(),
{
    if history.len() == 0 {
        Seq::empty()
    } else {
        pieces(history.drop_last()) + pieces_of(history.last())
    }
}

/// Whether a result and a call have an identifier in common.
pub open spec fn share_identifier(result: ResultModel, call: CallModel) -> bool {
    result.id == call.id || result.call_id == Some(call.id) || call.call_id == Some(result.id) || call.call_id is Some
        && call.call_id == result.call_id
}

/// Whether some result of a history has an identifier in common with a call.
pub open spec fn has_result_for(history: Seq<MessageModel>, call: CallModel) -> bool {
    exists|i: int, j: int|
        0 <= i < history.len() && history[i] is User && 0 <= j < history[i]->User_0.len() && (
        #[trigger] history[i]->User_0[j]) is ToolResult && share_identifier(history[i]->User_0[j]->ToolResult_0, call)
}

/// Whether a piece is a call that no result of a history belongs to.
pub open spec fn is_unanswered(history: Seq<MessageModel>, piece: Piece) -> bool {
    piece matches Piece::Item(_, AssistantModel::ToolCall(call)) && !has_result_for(history, call)
}

proof fn answered_means_a_result(history: Seq<MessageModel>, call: CallModel)
    ensures
        call_answered(history, call) == has_result_for(history, call),
{
    if call_answered(history, call) {
        let key = if answers(history, call.id) {
            call.id
        } else {
            call.call_id->0
        };
        let (i, j) = choose|i: int, j: int| result_carries(#[trigger] result_at(history, i, j), key);
        assert(history[i]->User_0[j] is ToolResult);
    }
    if has_result_for(history, call) {
        let (i, j) = choose|i: int, j: int|
            0 <= i < history.len() && history[i] is User && 0 <= j < history[i]->User_0.len() && (
            #[trigger] history[i]->User_0[j]) is ToolResult && share_identifier(
                history[i]->User_0[j]->ToolResult_0,
                call,
            );
        let result = history[i]->User_0[j]->ToolResult_0;
        assert(result_at(history, i, j) == Some(result));
        if result.id == call.id || result.call_id == Some(call.id) {
            assert(result_carries(result_at(history, i, j), call.id));
        } else {
            assert(result_carries(result_at(history, i, j), call.call_id->0));
        }
    }
}

proof fn item_pieces_keep(
    history: Seq<MessageModel>,
    id: Option<Seq<char>>,
    items: Seq<AssistantModel>,
    keep: spec_fn(Piece) -> bool,
)
    requires
        keep == (|piece: Piece| !is_unanswered(history, piece)),
    ensures
        pieces_of(MessageModel::Assistant(id, staying(history, items))).filter(keep) == pieces_of(
            MessageModel::Assistant(id, items),
        ).filter(keep),
        staying(history, items).len() <= items.len(),
    decreases items.len(),
{
    reveal(Seq::filter);
    let kept = pieces_of(MessageModel::Assistant(id, staying(history, items)));
    let all = pieces_of(MessageModel::Assistant(id, items));
    if items.len() == 0 {
        assert(kept =~= all);
    } else {
        let front = items.drop_last();
        let last = items.last();
        item_pieces_keep(history, id, front, keep);
        assert(all.drop_last() =~= pieces_of(MessageModel::Assistant(id, front)));
        if let AssistantModel::ToolCall(call) = last {
            answered_means_a_result(history, call);
        }
        if stays(history, last) {
            assert(kept.drop_last() =~= pieces_of(MessageModel::Assistant(id, staying(history, front))));
            assert(kept.last() == all.last());
        } else {
            assert(!keep(all.last()));
        }
    }
}

proof fn pieces_join(a: Seq<MessageModel>, b: Seq<MessageModel>)
    ensures
        pieces(a + b) == pieces(a) + pieces(b),
    decreases b.len(),
{
    if b.len() == 0 {
        assert(a + b =~= a);
        assert(pieces(a) + pieces(b) =~= pieces(a));
    } else {
        pieces_join(a, b.drop_last());
        assert((a + b).drop_last() =~= a + b.drop_last());
        assert(pieces(a + b) =~= pieces(a) + pieces(b));
    }
}

proof fn pieces_keep(history: Seq<MessageModel>, n: int, keep: spec_fn(Piece) -> bool)
    requires
        0 <= n <= history.len(),
        keep == (|piece: Piece| !is_unanswered(history, piece)),
    ensures
        pieces(pruned(history, n as nat)).filter(keep) == pieces(history.take(n)).filter(keep),
        pieces(history.take(n)).len() == pieces(pruned(history, n as nat)).len() + dropped_calls(history, n as nat),
    decreases n,
{
    if n > 0 {
        pieces_keep(history, n - 1, keep);
        let message = history[n - 1];
        let left = pruned_message(history, n - 1);
        assert(history.take(n).drop_last() =~= history.take(n - 1));
        pieces_join(pruned(history, (n - 1) as nat), left);
        if left.len() == 1 {
            assert(left.drop_last() =~= Seq::<MessageModel>::empty());
            assert(pieces(left.drop_last()) =~= Seq::<Piece>::empty());
            assert(pieces(left) =~= pieces_of(left[0]));
        }
        if let MessageModel::Assistant(id, items) = message {
            item_pieces_keep(history, id, items, keep);
            if left.len() == 0 {
                assert(pieces_of(MessageModel::Assistant(id, staying(history, items))) =~= Seq::<Piece>::empty());
            }
        }
        Seq::filter_distributes_over_add(pieces(pruned(history, (n - 1) as nat)), pieces(left), keep);
        Seq::filter_distributes_over_add(pieces(history.take(n - 1)), pieces_of(message), keep);
    } else {
        assert(history.take(0) =~= Seq::<MessageModel>::empty());
    }
}

/// Dropping takes unanswered calls and nothing else: every message that is no
/// assistant message, every item that is no call, and every call that a result
/// belongs to is still there, in the same order, and the report counts what is
/// gone.
pub proof fn law_dropping_takes_unanswered_calls_alone(history: Seq<MessageModel>)
    ensures
        pieces(pruned(history, history.len())).filter(|piece: Piece| !is_unanswered(history, piece)) == pieces(
            history,
        ).filter(|piece: Piece| !is_unanswered(history, piece)),
        pieces(history).len() == pieces(pruned(history, history.len())).len() + dropped_calls(history, history.len()),
{
    let keep = |piece: Piece| !is_unanswered(history, piece);
    pieces_keep(history, history.len() as int, keep);
    assert(history.take(history.len() as int) =~= history);
}

/// A history in which every call has a result comes back unchanged, and no call
/// is counted.
pub proof fn law_an_answered_history_is_left_alone(history: Seq<MessageModel>)
    requires
        well_formed(history),
        forall|i: int, j: int|
            0 <= i < history.len() && history[i] is Assistant && 0 <= j < history[i]->Assistant_1.len() && (
            #[trigger] history[i]->Assistant_1[j]) is ToolCall ==> has_result_for(
                history,
                history[i]->Assistant_1[j]->ToolCall_0,
            ),
    ensures
        pruned(history, history.len()) == history,
        dropped_calls(history, history.len()) == 0,
{
    answered_prefix(history, history.len() as int);
    assert(history.take(history.len() as int) =~= history);
}

proof fn answered_prefix(history: Seq<MessageModel>, n: int)
    requires
        0 <= n <= history.len(),
        well_formed(history),
        forall|i: int, j: int|
            0 <= i < history.len() && history[i] is Assistant && 0 <= j < history[i]->Assistant_1.len() && (
            #[trigger] history[i]->Assistant_1[j]) is ToolCall ==> has_result_for(
                history,
                history[i]->Assistant_1[j]->ToolCall_0,
            ),
    ensures
        pruned(history, n as nat) == history.take(n),
        dropped_calls(history, n as nat) == 0,
    decreases n,
{
    if n > 0 {
        answered_prefix(history, n - 1);
        assert(history.take(n) =~= history.take(n - 1) + seq![history[n - 1]]);
        if let MessageModel::Assistant(id, items) = history[n - 1] {
            assert forall|j: int| 0 <= j < items.len() implies stays(history, #[trigger] items[j]) by {
                if let AssistantModel::ToolCall(call) = items[j] {
                    assert(history[n - 1]->Assistant_1[j] is ToolCall);
                    answered_means_a_result(history, call);
                }
            }
            all_staying(history, items);
        }
    } else {
        assert(history.take(0) =~= Seq::<MessageModel>::empty());
    }
}

/// Every call that is left has a result, unless it sits in the last assistant
/// message, where it may still await one; that message is never touched. No
/// message is left without an item.
pub proof fn law_calls_that_are_left_have_results(history: Seq<MessageModel>, i: int, k: int, j: int)
    requires
        well_formed(history),
    ensures
        0 <= i < history.len() && history[i] is Assistant && (forall|m: int|
            i < m < history.len() ==> !(#[trigger] history[m] is Assistant)) ==> pruned(
            history,
            history.len(),
        ).contains(history[i]),
        0 <= k < pruned(history, history.len()).len() && pruned(history, history.len())[k] is Assistant && 0 <= j
            < pruned(history, history.len())[k]->Assistant_1.len() && pruned(
            history,
            history.len(),
        )[k]->Assistant_1[j] is ToolCall && (exists|m: int|
            k < m < pruned(history, history.len()).len() && #[trigger] pruned(history, history.len())[m] is Assistant)
            ==> has_result_for(history, pruned(history, history.len())[k]->Assistant_1[j]->ToolCall_0),
        well_formed(pruned(history, history.len())),
{
    let n = history.len() as int;
    let left = pruned(history, history.len());
    if 0 <= i < n && history[i] is Assistant && (forall|m: int|
        i < m < history.len() ==> !(#[trigger] history[m] is Assistant)) {
        place_grows(history, i, n);
    }
    assert forall|m: int| 0 <= m < left.len() implies match #[trigger] left[m] {
        MessageModel::System(_) => true,
        MessageModel::User(items) => items.len() > 0,
        MessageModel::Assistant(_, items) => items.len() > 0,
    } by {
        let from = source(history, n, m);
    }
    if 0 <= k < left.len() && left[k] is Assistant && 0 <= j < left[k]->Assistant_1.len()
        && left[k]->Assistant_1[j] is ToolCall && (exists|m: int| k < m < left.len() && #[trigger] left[m] is Assistant) {
        let later = choose|m: int| k < m < left.len() && #[trigger] left[m] is Assistant;
        let from = source(history, n, k);
        let behind = source(history, n, later);
        if behind < from {
            place_grows(history, behind, from);
        }
        assert(history[behind] is Assistant);
        let items = history[from]->Assistant_1;
        staying_members(history, items);
        let item = left[k]->Assistant_1[j];
        assert(staying(history, items).contains(item));
        answered_means_a_result(history, item->ToolCall_0);
    }
}

proof fn first_call_is_one(items: Seq<AssistantModel>, key: Seq<char>)
    ensures
        match first_call(items, key) {
            Some(m) => 0 <= m < items.len() && item_carries(items[m], key),
            None => forall|m: int| 0 <= m < items.len() ==> !item_carries(#[trigger] items[m], key),
        },
    decreases items.len(),
{
    if items.len() > 0 {
        let front = items.drop_last();
        first_call_is_one(front, key);
        assert forall|m: int| 0 <= m < front.len() implies front[m] == items[m] by {}
        if first_call(items, key) is None {
            assert forall|m: int| 0 <= m < items.len() implies !item_carries(#[trigger] items[m], key) by {
                if m < front.len() {
                    assert(front[m] == items[m]);
                }
            }
        }
    }
}

/// Whether item `m` of message `k` is a call that carries an identifier.
pub open spec fn call_with(history: Seq<MessageModel>, k: int, m: int, key: Seq<char>) -> bool {
    &&& 0 <= k < history.len()
    &&& history[k] is Assistant
    &&& 0 <= m < history[k]->Assistant_1.len()
    &&& history[k]->Assistant_1[m] is ToolCall
    &&& key.len() > 0
    &&& history[k]->Assistant_1[m]->ToolCall_0.id == key || history[k]->Assistant_1[m]->ToolCall_0.call_id == Some(key)
}

proof fn first_carrier_is_first(history: Seq<MessageModel>, key: Seq<char>)
    ensures
        match first_carrier(history, key) {
            Some((k, m)) => call_with(history, k, m, key) && forall|a: int, b: int|
                #[trigger] call_with(history, a, b, key) ==> k <= a,
            None => forall|a: int, b: int| !#[trigger] call_with(history, a, b, key),
        },
    decreases history.len(),
{
    if history.len() > 0 {
        let front = history.drop_last();
        let end = history.len() - 1;
        first_carrier_is_first(front, key);
        if let MessageModel::Assistant(_, items) = history[end] {
            first_call_is_one(items, key);
        }
        assert forall|a: int, b: int| #[trigger] call_with(history, a, b, key) && a < end implies call_with(
            front,
            a,
            b,
            key,
        ) by {
            assert(front[a] == history[a]);
        }
        if let Some((k, m)) = first_carrier(front, key) {
            assert(front[k] == history[k]);
            assert(call_with(history, k, m, key));
            assert forall|a: int, b: int| #[trigger] call_with(history, a, b, key) implies k <= a by {
                if a < end {
                    assert(call_with(front, a, b, key));
                }
            }
        } else {
            assert forall|a: int, b: int| #[trigger] call_with(history, a, b, key) implies a == end && item_carries(
                history[end]->Assistant_1[b],
                key,
            ) by {
                if a < end {
                    assert(call_with(front, a, b, key));
                }
            }
        }
    }
}

/// What leaves for the provider pairs: every result of a repaired history
/// stands behind an assistant message with a call that carries one of its
/// identifiers, and is the result that stood there before.
pub proof fn law_repaired_results_stand_behind_their_calls(history: Seq<MessageModel>, i: int, j: int)
    requires
        0 <= i < history.len(),
        repaired(history)[i] is User,
        0 <= j < repaired(history)[i]->User_0.len(),
        repaired(history)[i]->User_0[j] is ToolResult,
    ensures
        history[i] is User && history[i]->User_0[j] == repaired(history)[i]->User_0[j],
        exists|k: int, m: int|
            k < i && #[trigger] call_of(repaired(history), k, m, repaired(history)[i]->User_0[j]->ToolResult_0),
{
    let mended = repaired(history);
    let result = mended[i]->User_0[j]->ToolResult_0;
    assert(repaired_item(history, i, j, history[i]->User_0[j]) == mended[i]->User_0[j]);
    assert(verdict(history, i, j) is None);
    assert(result_at(history, i, j) == Some(result));
    first_carrier_is_first(history, result.id);
    let (k, m) = claimed_call(history, result)->0;
    if first_carrier(history, result.id) is None {
        first_carrier_is_first(history, result.call_id->0);
        assert(call_with(history, k, m, result.call_id->0));
        assert(mended[k] == history[k]);
    } else {
        assert(call_with(history, k, m, result.id));
        assert(mended[k] == history[k]);
    }
    assert(call_of(mended, k, m, result));
}

/// A repaired history holds no two results with the same identifiers.
pub proof fn law_repaired_results_are_not_repeated(history: Seq<MessageModel>, a: int, b: int, i: int, j: int)
    requires
        0 <= a < history.len(),
        0 <= i < history.len(),
        a < i || a == i && b < j,
        repaired(history)[a] is User,
        repaired(history)[i] is User,
        0 <= b < repaired(history)[a]->User_0.len(),
        0 <= j < repaired(history)[i]->User_0.len(),
        repaired(history)[a]->User_0[b] is ToolResult,
        repaired(history)[i]->User_0[j] is ToolResult,
    ensures
        ({
            let one = repaired(history)[a]->User_0[b]->ToolResult_0;
            let other = repaired(history)[i]->User_0[j]->ToolResult_0;
            one.id != other.id || one.call_id != other.call_id
        }),
{
    law_repaired_history_pairs(history);
    let mended = repaired(history);
    assert(result_at(mended, a, b) == Some(mended[a]->User_0[b]->ToolResult_0));
    assert(result_at(mended, i, j) == Some(mended[i]->User_0[j]->ToolResult_0));
    law_no_call_is_answered_twice(mended, a, b, i, j);
}

/// A result behind a call that carries its id stays a result, as long as no
/// earlier result claims a call that it could answer.
pub proof fn law_a_result_behind_its_call_stays(history: Seq<MessageModel>, k: int, m: int, i: int, j: int)
    requires
        0 <= k < i < history.len(),
        history[i] is User,
        0 <= j < history[i]->User_0.len(),
        history[i]->User_0[j] is ToolResult,
        call_with(history, k, m, history[i]->User_0[j]->ToolResult_0.id),
        forall|a: int, b: int|
            0 <= a < history.len() && history[a] is User && 0 <= b < history[a]->User_0.len() && (
            #[trigger] history[a]->User_0[b]) is ToolResult && (a < i || a == i && b < j) ==> claim_apart(
                history,
                history[a]->User_0[b]->ToolResult_0,
                history[i]->User_0[j]->ToolResult_0,
            ),
    ensures
        repaired(history)[i] is User,
        repaired(history)[i]->User_0[j] == history[i]->User_0[j],
{
    let result = history[i]->User_0[j]->ToolResult_0;
    first_carrier_is_first(history, result.id);
    assert(call_with(history, k, m, result.id));
    assert(result_at(history, i, j) == Some(result));
    let claimed = claimed_call(history, result)->0;
    assert(claimed.0 <= k);
    let call = answered_call(history, result)->0;
    carried_by_answered(history, result);
    if answered_before(history, i, j, call) {
        let (a, b) = choose|a: int, b: int| answers_before(history, a, b, i, j, call);
        let other = result_at(history, a, b)->0;
        assert(history[a]->User_0[b] is ToolResult);
        carried_by_answered(history, other);
        assert(claim_apart(history, other, result));
    }
    assert(verdict(history, i, j) is None);
}

/// Whether no call carries an identifier of one result and one of another.
pub open spec fn claim_apart(history: Seq<MessageModel>, one: ResultModel, other: ResultModel) -> bool {
    forall|k: int, m: int|
        !(#[trigger] call_of(history, k, m, one) && #[trigger] call_of(history, k, m, other))
}

/// Whether item `m` of message `k` is a call that carries an identifier of a
/// result.
pub open spec fn call_of(history: Seq<MessageModel>, k: int, m: int, result: ResultModel) -> bool {
    call_with(history, k, m, result.id) || result.call_id is Some && call_with(history, k, m, result.call_id->0)
}

proof fn carried_by_answered(history: Seq<MessageModel>, result: ResultModel)
    requires
        answered_call(history, result) is Some,
    ensures
        ({
            let (k, m) = answered_call(history, result)->0;
            call_of(history, k, m, result)
        }),
{
    first_carrier_is_first(history, result.id);
    if let Some(call_id) = result.call_id {
        first_carrier_is_first(history, call_id);
    }
}

/// Why a result is rewritten is true of it: an orphan has no call anywhere in
/// the history, a stale one has none before it under its id, and a duplicate
/// comes behind another result that shares a call with it.
pub proof fn law_a_verdict_is_true_of_its_result(history: Seq<MessageModel>, i: int, j: int)
    ensures
        verdict(history, i, j) == Some(Unpairable::Orphan) <==> 0 <= i < history.len() && history[i] is User && 0 <= j
            < history[i]->User_0.len() && history[i]->User_0[j] is ToolResult && forall|k: int, m: int|
            !#[trigger] call_of(history, k, m, history[i]->User_0[j]->ToolResult_0),
        verdict(history, i, j) == Some(Unpairable::Stale) ==> forall|k: int, m: int|
            k < i ==> !#[trigger] call_with(history, k, m, history[i]->User_0[j]->ToolResult_0.id),
        verdict(history, i, j) == Some(Unpairable::Stale) ==> exists|k: int, m: int|
            i <= k && #[trigger] call_of(history, k, m, history[i]->User_0[j]->ToolResult_0),
        verdict(history, i, j) == Some(Unpairable::Duplicate) ==> exists|a: int, b: int|
            earlier(a, b, i, j) && 0 <= a < history.len() && history[a] is User && 0 <= b < history[a]->User_0.len()
                && (#[trigger] history[a]->User_0[b]) is ToolResult && !claim_apart(
                history,
                history[a]->User_0[b]->ToolResult_0,
                history[i]->User_0[j]->ToolResult_0,
            ),
        verdict(history, i, j) is Some ==> 0 <= i < history.len() && history[i] is User && 0 <= j
            < history[i]->User_0.len() && history[i]->User_0[j] is ToolResult,
{
    if 0 <= i < history.len() && history[i] is User && 0 <= j < history[i]->User_0.len()
        && history[i]->User_0[j] is ToolResult {
        let result = history[i]->User_0[j]->ToolResult_0;
        assert(result_at(history, i, j) == Some(result));
        first_carrier_is_first(history, result.id);
        if let Some(call_id) = result.call_id {
            first_carrier_is_first(history, call_id);
        }
        if let Some((k, m)) = claimed_call(history, result) {
            assert(call_of(history, k, m, result));
        } else {
            assert forall|k: int, m: int| !#[trigger] call_of(history, k, m, result) by {}
        }
        if verdict(history, i, j) == Some(Unpairable::Duplicate) {
            let call = answered_call(history, result)->0;
            let (a, b) = choose|a: int, b: int| answers_before(history, a, b, i, j, call);
            let other = result_at(history, a, b)->0;
            carried_by_answered(history, result);
            carried_by_answered(history, other);
            assert(history[a]->User_0[b] is ToolResult);
            assert(call_of(history, call.0, call.1, other) && call_of(history, call.0, call.1, result));
        }
    } else {
        assert(result_at(history, i, j) is None);
    }
}

/// How many of the first `n` items are results.
pub open spec fn results_among(items: Seq<UserModel>, n: nat) -> nat
    decreases n,
{
    if n == 0 {
        0
    } else {
        results_among(items, (n - 1) as nat) + if items[n - 1] is ToolResult {
            1nat
        } else {
            0nat
        }
    }
}

/// How many results the first `n` messages hold.
pub open spec fn results_in(history: Seq<MessageModel>, n: nat) -> nat
    decreases n,
{
    if n == 0 {
        0
    } else {
        results_in(history, (n - 1) as nat) + match history[n - 1] {
            MessageModel::User(items) => results_among(items, items.len()),
            _ => 0,
        }
    }
}

proof fn row_adds_up(history: Seq<MessageModel>, i: int, n: nat)
    requires
        0 <= i < history.len(),
        history[i] is User,
        n <= history[i]->User_0.len(),
    ensures
        results_among(history[i]->User_0, n) == results_among(repaired(history)[i]->User_0, n) + count_row(
            history,
            i,
            n,
            Unpairable::Orphan,
        ) + count_row(history, i, n, Unpairable::Stale) + count_row(history, i, n, Unpairable::Duplicate),
    decreases n,
{
    if n > 0 {
        row_adds_up(history, i, (n - 1) as nat);
        assert(repaired(history)[i]->User_0[n - 1] == repaired_item(history, i, n - 1, history[i]->User_0[n - 1]));
    }
}

/// The report adds up: the results of the history are those that are left and
/// those that were rewritten for one reason or another.
pub proof fn law_the_report_adds_up(history: Seq<MessageModel>, n: nat)
    requires
        n <= history.len(),
    ensures
        results_in(history, n) == results_in(repaired(history), n) + count_verdicts(history, n, Unpairable::Orphan)
            + count_verdicts(history, n, Unpairable::Stale) + count_verdicts(history, n, Unpairable::Duplicate),
    decreases n,
{
    if n > 0 {
        law_the_report_adds_up(history, (n - 1) as nat);
        if let MessageModel::User(items) = history[n - 1] {
            row_adds_up(history, n - 1, items.len());
        }
    }
}

/// A rewritten result is framed as historical output, says why and for which
/// call, and keeps what the frame holds.
pub proof fn law_a_note_frames_its_result(result: ResultModel, verdict: Unpairable)
    ensures
        text::begins(note(result, verdict), "[BEGIN UNTRUSTED HISTORICAL TOOL OUTPUT — "@),
        text::ends(note(result, verdict), "\n[END UNTRUSTED HISTORICAL TOOL OUTPUT]"@),
        text::occurs_in(note(result, verdict), verdict.wording()),
        result.call_id matches Some(call_id) && call_id.len() > 0 ==> text::occurs_in(
            note(result, verdict),
            result.call_id->0,
        ),
        (result.call_id matches Some(call_id) ==> call_id.len() == 0) ==> text::occurs_in(
            note(result, verdict),
            result.id,
        ),
        gathered(result.content).len() <= MAX_UNTRUSTED_RESULT_CHARS ==> text::occurs_in(
            note(result, verdict),
            gathered(result.content),
        ),
{
    let a = "[BEGIN UNTRUSTED HISTORICAL TOOL OUTPUT — "@;
    let b = verdict.wording();
    let c = "; call id: "@;
    let d = pair_key(result.id, result.call_id);
    let e = "]\n"@;
    let f = bounded(gathered(result.content));
    let g = "\n[END UNTRUSTED HISTORICAL TOOL OUTPUT]"@;
    let whole = note(result, verdict);
    assert(whole == a + b + c + d + e + f + g);
    assert(whole.subrange(0, a.len() as int) =~= a);
    assert(whole.subrange(whole.len() - g.len(), whole.len() as int) =~= g);
    let at = a.len() as int;
    assert(whole.subrange(at, at + b.len()) =~= b);
    assert(text::occurs_at(whole, b, at));
    let at = (a + b + c).len() as int;
    assert(whole.subrange(at, at + d.len()) =~= d);
    assert(text::occurs_at(whole, d, at));
    let at = (a + b + c + d + e).len() as int;
    assert(whole.subrange(at, at + f.len()) =~= f);
    assert(text::occurs_at(whole, f, at));
}

/// A text is cut only where it is too long, and only at its end, where a mark
/// says so.
pub proof fn law_long_results_keep_their_beginning(text: Seq<char>)
    ensures
        text.len() <= MAX_UNTRUSTED_RESULT_CHARS ==> bounded(text) == text,
        text.len() > MAX_UNTRUSTED_RESULT_CHARS ==> bounded(text).len() > MAX_UNTRUSTED_RESULT_CHARS && bounded(
            text,
        ).take(MAX_UNTRUSTED_RESULT_CHARS as int) == text.take(MAX_UNTRUSTED_RESULT_CHARS as int) && text::ends(
            bounded(text),
            "…[truncated]"@,
        ),
{
    reveal_strlit("…[truncated]");
    if text.len() > MAX_UNTRUSTED_RESULT_CHARS {
        let cut = text.take(MAX_UNTRUSTED_RESULT_CHARS as int);
        let whole = bounded(text);
        assert(whole.take(MAX_UNTRUSTED_RESULT_CHARS as int) =~= cut);
        assert(whole.subrange(cut.len() as int, whole.len() as int) =~= "…[truncated]"@);
    }
}

/// The parts of a result that fit the limit together are all kept, one below
/// the other.
pub proof fn law_short_parts_are_all_kept(parts: Seq<PartModel>)
    requires
        forall|k: int| 0 <= k < parts.len() ==> part_text(#[trigger] parts[k]).len() > 0,
        text::joined(parts.map_values(|part: PartModel| part_text(part)), "\n"@).len() <= MAX_UNTRUSTED_RESULT_CHARS,
    ensures
        gathered(parts) == text::joined(parts.map_values(|part: PartModel| part_text(part)), "\n"@),
    decreases parts.len(),
{
    reveal_strlit("\n");
    let written = |part: PartModel| part_text(part);
    let all = parts.map_values(written);
    if parts.len() > 0 {
        let front = parts.drop_last();
        assert(all.drop_last() =~= front.map_values(written));
        assert forall|k: int| 0 <= k < front.len() implies part_text(#[trigger] front[k]).len() > 0 by {
            assert(front[k] == parts[k]);
        }
        assert(part_text(parts[parts.len() - 1]).len() > 0);
        law_short_parts_are_all_kept(front);
        if front.len() > 0 {
            assert(part_text(parts[0]).len() > 0);
            joined_is_long(front.map_values(written));
            assert(gathered(front).push('\n') =~= gathered(front) + "\n"@);
        }
    }
}

proof fn joined_is_long(parts: Seq<Seq<char>>)
    requires
        parts.len() > 0,
        parts[0].len() > 0,
    ensures
        text::joined(parts, "\n"@).len() > 0,
    decreases parts.len(),
{
    if parts.len() > 1 {
        joined_is_long(parts.drop_last());
    }
}

/// An image is never passed on as text, and a text is passed on as it is.
pub proof fn law_parts_are_texts_or_omitted(part: PartModel)
    ensures
        part matches PartModel::Text(text) ==> part_text(part) == text,
        part is Image ==> part_text(part) == "[historical image result omitted]"@,
{
}

/// A result is matched to the first call that bears its identifier, and only
/// where none does to the first that bears its call identifier.
pub proof fn law_a_result_is_matched_by_its_own_identifier_first(history: Seq<MessageModel>, result: ResultModel)
    ensures
        first_carrier(history, result.id) is Some ==> claimed_call(history, result) == first_carrier(history, result.id),
        first_carrier(history, result.id) is None && result.call_id is Some ==> claimed_call(history, result)
            == first_carrier(history, result.call_id->0),
        first_carrier(history, result.id) is None && result.call_id is None ==> claimed_call(history, result) is None,
{
}

/// The first call that bears a key is an assistant's, and no message before it
/// has one.
pub proof fn law_the_first_call_with_a_key_is_found(history: Seq<MessageModel>, key: Seq<char>)
    ensures
        first_carrier(history, key) matches Some((k, m)) ==> 0 <= k < history.len() && call_in(history[k], key) == Some(
            m,
        ) && history[k] is Assistant && forall|i: int| 0 <= i < k ==> call_in(#[trigger] history[i], key) is None,
        first_carrier(history, key) is None ==> forall|i: int|
            0 <= i < history.len() ==> call_in(#[trigger] history[i], key) is None,
    decreases history.len(),
{
    if history.len() > 0 {
        let front = history.drop_last();
        law_the_first_call_with_a_key_is_found(front, key);
        assert forall|i: int| 0 <= i < front.len() implies #[trigger] history[i] == front[i] by {}
        if let Some((k, m)) = first_carrier(front, key) {
            assert(history[k] == front[k]);
        } else {
            assert(history[history.len() - 1] == history.last());
        }
    }
}

/// A pair goes by its call identifier where it has one that says anything, and
/// else by its own.
pub proof fn law_a_pair_goes_by_its_call_identifier(id: Seq<char>, call_id: Option<Seq<char>>)
    ensures
        call_id is Some && call_id->0.len() > 0 ==> pair_key(id, call_id) == call_id->0,
        call_id is None || call_id->0.len() == 0 ==> pair_key(id, call_id) == id,
{
}

/// What is wrong is told of the first result that is, by its key and in words.
pub proof fn law_the_first_violation_is_told(history: Seq<MessageModel>, i: int, j: int, a: int, b: int)
    requires
        first_violation(history, i, j),
    ensures
        verdict(history, i, j) is Some,
        a < i && verdict(history, a, b) is Some ==> !earlier(a, b, i, j),
        text::ends(violation_text(history, i, j), verdict(history, i, j)->0.wording()),
        text::begins(
            violation_text(history, i, j),
            pair_key(result_at(history, i, j)->0.id, result_at(history, i, j)->0.call_id),
        ),
{
    let key = pair_key(result_at(history, i, j)->0.id, result_at(history, i, j)->0.call_id);
    let words = verdict(history, i, j)->0.wording();
    text::law_grouping_does_not_matter(key, ": "@, words);
    text::law_parts_occur(Seq::empty(), key, ": "@ + words);
    text::law_parts_occur(key + ": "@, words, Seq::empty());
}

/// Items are counted message by message.
pub proof fn law_items_are_counted_message_by_message(first: Seq<MessageModel>, second: Seq<MessageModel>)
    ensures
        item_count(first + second) == item_count(first) + item_count(second),
    decreases second.len(),
{
    let all = first + second;
    if second.len() == 0 {
        assert(all =~= first);
    } else {
        assert(all.drop_last() =~= first + second.drop_last());
        assert(all.last() == second.last());
        law_items_are_counted_message_by_message(first, second.drop_last());
    }
}

} // verus!
