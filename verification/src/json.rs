//! JSON values.
use vstd::prelude::*;
use crate::text;

verus! {

broadcast use vstd::seq::group_seq_axioms;

/// A JSON value.
#[derive(Debug)]
pub enum Json {
    Null,
    Bool(bool),
    Number(i128),
    /// A number that is no whole one, as it is written.
    Literal(String),
    Text(String),
    List(Vec<Json>),
    Object(Vec<Member>),
}

/// A member of an object.
#[derive(Debug)]
pub struct Member {
    pub name: String,
    pub value: Json,
}

/// What a JSON value is.
pub enum JsonModel {
    Null,
    Bool(bool),
    Number(int),
    Literal(Seq<char>),
    Text(Seq<char>),
    List(Seq<JsonModel>),
    Object(Seq<(Seq<char>, JsonModel)>),
}

impl Json {
    /// What a JSON value is.
    pub open spec fn model(self) -> JsonModel
        decreases self,
    {
        match self {
            Json::Null => JsonModel::Null,
            Json::Bool(flag) => JsonModel::Bool(flag),
            Json::Number(number) => JsonModel::Number(number as int),
            Json::Literal(number) => JsonModel::Literal(number@),
            Json::Text(text) => JsonModel::Text(text@),
            Json::List(items) => JsonModel::List(
                Seq::new(
                    items@.len(),
                    |k: int|
                        if 0 <= k < items@.len() {
                            items@[k].model()
                        } else {
                            JsonModel::Null
                        },
                ),
            ),
            Json::Object(members) => JsonModel::Object(
                Seq::new(
                    members@.len(),
                    |k: int|
                        if 0 <= k < members@.len() {
                            (members@[k].name@, members@[k].value.model())
                        } else {
                            (Seq::empty(), JsonModel::Null)
                        },
                ),
            ),
        }
    }
}

impl View for Json {
    type V = JsonModel;

    open spec fn view(&self) -> JsonModel {
        self.model()
    }
}

/// What the members of an object are.
pub open spec fn member_models(members: Seq<Member>) -> Seq<(Seq<char>, JsonModel)> {
    members.map_values(|member: Member| (member.name@, member.value@))
}

/// What some values are.
pub open spec fn json_models(items: Seq<Json>) -> Seq<JsonModel> {
    items.map_values(|item: Json| item@)
}

/// An object is its members.
pub proof fn object_model(members: Vec<Member>)
    ensures
        Json::Object(members)@ == JsonModel::Object(member_models(members@)),
{
    assert(Json::Object(members).model()->Object_0 =~= member_models(members@));
}

/// A list is its items.
pub proof fn list_model(items: Vec<Json>)
    ensures
        Json::List(items)@ == JsonModel::List(json_models(items@)),
{
    assert(Json::List(items).model()->List_0 =~= json_models(items@));
}

/// Where a member of a name stands.
pub open spec fn member_at(members: Seq<(Seq<char>, JsonModel)>, name: Seq<char>) -> Option<int>
    decreases members.len(),
{
    if members.len() == 0 {
        None
    } else {
        match member_at(members.drop_last(), name) {
            Some(k) => Some(k),
            None => if members.last().0 == name {
                Some(members.len() - 1)
            } else {
                None
            },
        }
    }
}

/// Members with one set: in place of the member of that name, or behind all
/// others.
pub open spec fn with_member(members: Seq<(Seq<char>, JsonModel)>, name: Seq<char>, value: JsonModel) -> Seq<
    (Seq<char>, JsonModel),
> {
    match member_at(members, name) {
        Some(k) => members.update(k, (name, value)),
        None => members.push((name, value)),
    }
}

/// The member of a name.
pub open spec fn member_of(members: Seq<(Seq<char>, JsonModel)>, name: Seq<char>) -> Option<JsonModel> {
    match member_at(members, name) {
        Some(k) => Some(members[k].1),
        None => None,
    }
}

/// What the first member of a name is.
pub proof fn member_at_first(members: Seq<(Seq<char>, JsonModel)>, name: Seq<char>)
    ensures
        match member_at(members, name) {
            Some(k) => 0 <= k < members.len() && members[k].0 == name && forall|i: int|
                0 <= i < k ==> (#[trigger] members[i]).0 != name,
            None => forall|i: int| 0 <= i < members.len() ==> (#[trigger] members[i]).0 != name,
        },
    decreases members.len(),
{
    if members.len() > 0 {
        let front = members.drop_last();
        member_at_first(front, name);
        assert forall|i: int| 0 <= i < front.len() implies front[i] == members[i] by {}
    }
}

/// Where a member of a name stands.
pub fn find_member(members: &Vec<Member>, name: &str) -> (at: Option<usize>)
    ensures
        match at {
            Some(at) => member_at(member_models(members@), name@) == Some(at as int) && at < members@.len()
                && members@[at as int].name@ == name@,
            None => member_at(member_models(members@), name@) is None,
        },
{
    let ghost models = member_models(members@);
    proof {
        member_at_first(models, name@);
    }
    let mut k: usize = 0;
    while k < members.len()
        invariant
            models == member_models(members@),
            k <= members@.len(),
            forall|i: int| 0 <= i < k ==> (#[trigger] models[i]).0 != name@,
            match member_at(models, name@) {
                Some(k) => 0 <= k < models.len() && models[k].0 == name@ && forall|i: int|
                    0 <= i < k ==> (#[trigger] models[i]).0 != name@,
                None => forall|i: int| 0 <= i < models.len() ==> (#[trigger] models[i]).0 != name@,
            },
        decreases members@.len() - k,
    {
        assert(models[k as int].0 == members@[k as int].name@);
        if text::same(members[k].name.as_str(), name) {
            return Some(k);
        }
        k = k + 1;
    }
    None
}

/// Sets a member of an object.
pub fn set_member(members: &mut Vec<Member>, name: &str, value: Json)
    ensures
        member_models(final(members)@) == with_member(member_models(old(members)@), name@, value@),
{
    let ghost before = members@;
    let member = Member { name: name.to_owned(), value };
    match find_member(members, name) {
        Some(at) => {
            members.set(at, member);
            assert(member_models(members@) =~= member_models(before).update(at as int, (name@, value@)));
        },
        None => {
            members.push(member);
            assert(member_models(members@) =~= member_models(before).push((name@, value@)));
        },
    }
}

/// An object under construction.
#[derive(Debug)]
pub struct Body {
    pub members: Vec<Member>,
}

impl View for Body {
    type V = Seq<(Seq<char>, JsonModel)>;

    open spec fn view(&self) -> Seq<(Seq<char>, JsonModel)> {
        member_models(self.members@)
    }
}

/// Members with a text set.
pub open spec fn with_text(members: Seq<(Seq<char>, JsonModel)>, name: Seq<char>, value: Seq<char>) -> Seq<
    (Seq<char>, JsonModel),
> {
    with_member(members, name, JsonModel::Text(value))
}

/// Members with a text set, where there is one.
pub open spec fn with_opt_text(members: Seq<(Seq<char>, JsonModel)>, name: Seq<char>, value: Option<Seq<char>>) -> Seq<
    (Seq<char>, JsonModel),
> {
    match value {
        Some(value) => with_text(members, name, value),
        None => members,
    }
}

/// Members with a number set.
pub open spec fn with_number(members: Seq<(Seq<char>, JsonModel)>, name: Seq<char>, value: int) -> Seq<
    (Seq<char>, JsonModel),
> {
    with_member(members, name, JsonModel::Number(value))
}

/// Members with a number set, where there is one.
pub open spec fn with_opt_number(members: Seq<(Seq<char>, JsonModel)>, name: Seq<char>, value: Option<int>) -> Seq<
    (Seq<char>, JsonModel),
> {
    match value {
        Some(value) => with_number(members, name, value),
        None => members,
    }
}

/// Members with a flag set.
pub open spec fn with_flag(members: Seq<(Seq<char>, JsonModel)>, name: Seq<char>, value: bool) -> Seq<
    (Seq<char>, JsonModel),
> {
    with_member(members, name, JsonModel::Bool(value))
}

/// A list of texts.
pub open spec fn text_items(texts: Seq<Seq<char>>) -> JsonModel {
    JsonModel::List(texts.map_values(|text: Seq<char>| JsonModel::Text(text)))
}

/// No members.
pub open spec fn no_members() -> Seq<(Seq<char>, JsonModel)> {
    Seq::empty()
}

/// An optional whole number.
pub open spec fn opt_int(value: Option<i64>) -> Option<int> {
    match value {
        Some(value) => Some(value as int),
        None => None,
    }
}

/// An optional count.
pub open spec fn opt_nat(value: Option<u64>) -> Option<int> {
    match value {
        Some(value) => Some(value as int),
        None => None,
    }
}

/// An optional place in a list.
pub open spec fn opt_place(value: Option<usize>) -> Option<int> {
    match value {
        Some(value) => Some(value as int),
        None => None,
    }
}

impl Body {
    /// An object without members.
    pub fn new() -> (body: Self)
        ensures
            body@ == no_members(),
    {
        let body = Body { members: Vec::new() };
        assert(body@ =~= no_members());
        body
    }

    /// Sets a member.
    pub fn set(&mut self, name: &str, value: Json)
        ensures
            final(self)@ == with_member(old(self)@, name@, value@),
    {
        set_member(&mut self.members, name, value);
    }

    /// Sets a text.
    pub fn text(&mut self, name: &str, value: &str)
        ensures
            final(self)@ == with_text(old(self)@, name@, value@),
    {
        self.set(name, Json::Text(value.to_owned()));
    }

    /// Sets a text, where there is one.
    pub fn opt_text(&mut self, name: &str, value: &Option<String>)
        ensures
            final(self)@ == with_opt_text(old(self)@, name@, text::opt_text(*value)),
    {
        if let Some(value) = value {
            self.text(name, value.as_str());
        }
    }

    /// Sets a number.
    pub fn number(&mut self, name: &str, value: i64)
        ensures
            final(self)@ == with_number(old(self)@, name@, value as int),
    {
        self.set(name, Json::Number(value as i128));
    }

    /// Sets a number, where there is one.
    pub fn opt_number(&mut self, name: &str, value: Option<i64>)
        ensures
            final(self)@ == with_opt_number(old(self)@, name@, opt_int(value)),
    {
        if let Some(value) = value {
            self.number(name, value);
        }
    }

    /// Sets a count, where there is one.
    pub fn opt_count(&mut self, name: &str, value: Option<u64>)
        ensures
            final(self)@ == with_opt_number(old(self)@, name@, opt_nat(value)),
    {
        if let Some(value) = value {
            self.set(name, Json::Number(value as i128));
        }
    }

    /// Sets a place in a list, where there is one.
    pub fn opt_place(&mut self, name: &str, value: Option<usize>)
        ensures
            final(self)@ == with_opt_number(old(self)@, name@, opt_place(value)),
    {
        if let Some(value) = value {
            self.set(name, Json::Number(value as i128));
        }
    }

    /// Sets a flag.
    pub fn flag(&mut self, name: &str, value: bool)
        ensures
            final(self)@ == with_flag(old(self)@, name@, value),
    {
        self.set(name, Json::Bool(value));
    }

    /// Sets a list of texts.
    pub fn texts(&mut self, name: &str, values: &Vec<String>)
        ensures
            final(self)@ == with_member(old(self)@, name@, text_items(text::texts(values@))),
    {
        self.set(name, list_texts(values));
    }

    /// The object.
    pub fn object(self) -> (json: Json)
        ensures
            json@ == JsonModel::Object(self@),
    {
        proof {
            object_model(self.members);
        }
        Json::Object(self.members)
    }
}

/// A list of texts.
pub fn list_texts(values: &Vec<String>) -> (json: Json)
    ensures
        json@ == text_items(text::texts(values@)),
{
    let ghost all = text::texts(values@);
    let mut items: Vec<Json> = Vec::new();
    let mut k: usize = 0;
    while k < values.len()
        invariant
            all == text::texts(values@),
            k <= values@.len(),
            items@.len() == k,
            forall|i: int| 0 <= i < k ==> (#[trigger] items@[i])@ == JsonModel::Text(all[i]),
        decreases values@.len() - k,
    {
        items.push(Json::Text(values[k].clone()));
        assert(all[k as int] == values@[k as int]@);
        k = k + 1;
    }
    proof {
        list_model(items);
        assert(json_models(items@) =~= all.map_values(|text: Seq<char>| JsonModel::Text(text)));
    }
    Json::List(items)
}

// ---------------------------------------------------------------------------
// Parsing
// ---------------------------------------------------------------------------

/// A JSON value of `serde_json`.
#[verifier::external_type_specification]
#[verifier::external_body]
pub struct ExValue(serde_json::Value);

/// What a `serde_json::Value` holds, at every depth.
pub uninterp spec fn value_held(value: serde_json::Value) -> JsonModel;

/// What `serde_json::from_slice` makes of bytes; nothing where they are no
/// JSON.
pub uninterp spec fn json_body(body: Seq<u8>) -> Option<JsonModel>;

/// What `serde_json::from_str` makes of a text, or the text of its error.
pub uninterp spec fn json_text(text: Seq<char>) -> Result<JsonModel, Seq<char>>;

/// Calls `serde_json::from_slice` for a `serde_json::Value`. The claim is that
/// whether the bytes are JSON, and what the value holds where they are, depends
/// on the bytes alone, and that no bytes are no JSON.
#[verifier::external_body]
fn value_in_bytes(body: &Vec<u8>) -> (value: Option<serde_json::Value>)
    ensures
        (match value {
            Some(value) => Some(value_held(value)),
            None => None,
        }) == json_body(body@),
        body@.len() == 0 ==> value is None,
{
    serde_json::from_slice(body).ok()
}

/// Calls `serde_json::from_str` for a `serde_json::Value`. The claim is that
/// what the value holds, or the text of the error, depends on the text alone.
#[verifier::external_body]
fn value_in_text(text: &str) -> (value: Result<serde_json::Value, String>)
    ensures
        (match value {
            Ok(value) => Ok(value_held(value)),
            Err(complaint) => Err(complaint@),
        }) == json_text(text@),
{
    serde_json::from_str(text).map_err(|error| error.to_string())
}

/// Takes a `serde_json::Value` apart, variant by variant and item by item. A
/// number is a whole one where `Number::as_i128` gives it, and else comes as
/// its `Display` writes it. The claim is that this is what the value holds.
#[verifier::external_body]
fn opened(value: serde_json::Value) -> (json: Json)
    ensures
        json@ == value_held(value),
{
    match value {
        serde_json::Value::Null => Json::Null,
        serde_json::Value::Bool(flag) => Json::Bool(flag),
        serde_json::Value::Number(number) => match number.as_i128() {
            Some(whole) => Json::Number(whole),
            None => Json::Literal(number.to_string()),
        },
        serde_json::Value::String(text) => Json::Text(text),
        serde_json::Value::Array(items) => Json::List(items.into_iter().map(opened).collect()),
        serde_json::Value::Object(members) => Json::Object(
            members.into_iter().map(|(name, value)| Member { name, value: opened(value) }).collect(),
        ),
    }
}

/// Reads JSON out of bytes.
pub fn read_json(body: &Vec<u8>) -> (read: Option<Json>)
    ensures
        (match read {
            Some(read) => Some(read@),
            None => None,
        }) == json_body(body@),
        body@.len() == 0 ==> read is None,
{
    match value_in_bytes(body) {
        Some(value) => Some(opened(value)),
        None => None,
    }
}

/// Reads JSON out of a text; what is wrong with it where it is none.
pub fn parse_json(text: &str) -> (read: Result<Json, String>)
    ensures
        (match read {
            Ok(read) => Ok(read@),
            Err(complaint) => Err(complaint@),
        }) == json_text(text@),
{
    match value_in_text(text) {
        Ok(value) => Ok(opened(value)),
        Err(complaint) => Err(complaint),
    }
}

/// What a text holds as JSON, or what is said where it is none.
pub open spec fn parsed(text: Seq<char>, complaint: Seq<char>) -> Result<JsonModel, Seq<char>> {
    match json_text(text) {
        Ok(value) => Ok(value),
        Err(cause) => Err(complaint + ": "@ + cause),
    }
}

/// Reads JSON out of a text; a complaint and its cause where it is none.
pub fn parse_or(text: &str, complaint: &str) -> (read: Result<Json, String>)
    ensures
        (match read {
            Ok(read) => Ok(read@),
            Err(reason) => Err(reason@),
        }) == parsed(text@, complaint@),
{
    match parse_json(text) {
        Ok(read) => Ok(read),
        Err(cause) => {
            let mut reason = complaint.to_owned();
            reason.push_str(": ");
            reason.push_str(cause.as_str());
            Err(reason)
        },
    }
}

// ---------------------------------------------------------------------------
// Reading
// ---------------------------------------------------------------------------

impl JsonModel {
    /// The member of a name; null where there is none.
    pub open spec fn at(self, name: Seq<char>) -> JsonModel {
        match self {
            JsonModel::Object(members) => match member_of(members, name) {
                Some(value) => value,
                None => JsonModel::Null,
            },
            _ => JsonModel::Null,
        }
    }

    /// The text, where the value is one.
    pub open spec fn as_text(self) -> Option<Seq<char>> {
        match self {
            JsonModel::Text(text) => Some(text),
            _ => None,
        }
    }

    /// The flag, where the value is one.
    pub open spec fn as_flag(self) -> Option<bool> {
        match self {
            JsonModel::Bool(flag) => Some(flag),
            _ => None,
        }
    }

    /// The count, where the value is one that fits 64 bits.
    pub open spec fn as_count(self) -> Option<nat> {
        match self {
            JsonModel::Number(number) => if 0 <= number <= u64::MAX {
                Some(number as nat)
            } else {
                None
            },
            _ => None,
        }
    }

    /// The whole number, where the value is one that fits 64 bits.
    pub open spec fn as_whole(self) -> Option<int> {
        match self {
            JsonModel::Number(number) => if i64::MIN <= number <= i64::MAX {
                Some(number)
            } else {
                None
            },
            _ => None,
        }
    }

    /// The items; none where the value is no list.
    pub open spec fn items(self) -> Seq<JsonModel> {
        match self {
            JsonModel::List(items) => items,
            _ => Seq::empty(),
        }
    }

    /// A text member, or something in its place.
    pub open spec fn text_or(self, name: Seq<char>, default: Seq<char>) -> Seq<char> {
        match self.at(name).as_text() {
            Some(text) => text,
            None => default,
        }
    }

    /// Whether a member is a flag that is set.
    pub open spec fn is_set(self, name: Seq<char>) -> bool {
        self.at(name).as_flag() == Some(true)
    }

    /// A member that is a count, or zero.
    pub open spec fn count(self, name: Seq<char>) -> nat {
        match self.at(name).as_count() {
            Some(count) => count,
            None => 0,
        }
    }
}

impl Json {
    /// The member of a name.
    pub fn member(&self, name: &str) -> (member: Option<&Json>)
        ensures
            match member {
                Some(member) => member@ == self@.at(name@),
                None => self@.at(name@) == JsonModel::Null,
            },
    {
        match self {
            Json::Object(members) => {
                proof {
                    object_model(*members);
                }
                match find_member(members, name) {
                    Some(at) => {
                        assert(member_models(members@)[at as int] == (members@[at as int].name@, members@[at as int].value@));
                        Some(&members[at].value)
                    },
                    None => None,
                }
            },
            _ => None,
        }
    }

    /// A member that is a text.
    pub fn text(&self, name: &str) -> (text: Option<String>)
        ensures
            text::opt_text(text) == self@.at(name@).as_text(),
    {
        match self.member(name) {
            Some(Json::Text(text)) => Some(text.clone()),
            _ => None,
        }
    }

    /// A member that is a text, or something in its place.
    pub fn text_or(&self, name: &str, default: &str) -> (text: String)
        ensures
            text@ == self@.text_or(name@, default@),
    {
        match self.text(name) {
            Some(text) => text,
            None => default.to_owned(),
        }
    }

    /// A member that is a flag.
    pub fn flag(&self, name: &str) -> (flag: Option<bool>)
        ensures
            flag == self@.at(name@).as_flag(),
    {
        match self.member(name) {
            Some(Json::Bool(flag)) => Some(*flag),
            _ => None,
        }
    }

    /// Whether a member is a flag that is set.
    pub fn is_set(&self, name: &str) -> (set: bool)
        ensures
            set == self@.is_set(name@),
    {
        match self.flag(name) {
            Some(flag) => flag,
            None => false,
        }
    }

    /// A member that is a count, or zero.
    pub fn count(&self, name: &str) -> (count: u64)
        ensures
            count as nat == self@.count(name@),
    {
        match self.member(name) {
            Some(Json::Number(number)) => if 0 <= *number && *number <= u64::MAX as i128 {
                *number as u64
            } else {
                0
            },
            _ => 0,
        }
    }

    /// A member that is a whole number.
    pub fn whole(&self, name: &str) -> (number: Option<i64>)
        ensures
            opt_int(number) == self@.at(name@).as_whole(),
    {
        match self.member(name) {
            Some(Json::Number(number)) => if i64::MIN as i128 <= *number && *number <= i64::MAX as i128 {
                Some(*number as i64)
            } else {
                None
            },
            _ => None,
        }
    }

    /// The items of a member that is a list.
    pub fn items(&self, name: &str) -> (items: Option<&Vec<Json>>)
        ensures
            match items {
                Some(items) => json_models(items@) == self@.at(name@).items(),
                None => self@.at(name@).items() == Seq::<JsonModel>::empty(),
            },
    {
        match self.member(name) {
            Some(Json::List(items)) => {
                proof {
                    list_model(*items);
                }
                Some(items)
            },
            _ => None,
        }
    }
}

// ---------------------------------------------------------------------------
// Laws
// ---------------------------------------------------------------------------

/// A member that was set is the one found, and no other is changed.
pub proof fn law_a_set_member_is_found(
    members: Seq<(Seq<char>, JsonModel)>,
    name: Seq<char>,
    value: JsonModel,
    other: Seq<char>,
)
    ensures
        member_of(with_member(members, name, value), name) == Some(value),
        other != name ==> member_of(with_member(members, name, value), other) == member_of(members, other),
{
    let after = with_member(members, name, value);
    member_at_first(members, name);
    member_at_first(after, name);
    member_at_first(members, other);
    member_at_first(after, other);
    if let Some(k) = member_at(members, name) {
        assert(after[k] == (name, value));
        assert forall|i: int| 0 <= i < members.len() && i != k implies #[trigger] after[i] == members[i] by {}
        if let Some(i) = member_at(members, other) {
            if other != name {
                assert(after[i] == members[i]);
            }
        }
        if let Some(i) = member_at(after, other) {
            if other != name {
                assert(after[i] == members[i]);
            }
        }
    } else {
        assert(after.last() == (name, value));
        assert forall|i: int| 0 <= i < members.len() implies #[trigger] after[i] == members[i] by {}
        if let Some(i) = member_at(members, other) {
            assert(after[i] == members[i]);
        }
        if let Some(i) = member_at(after, other) {
            if i < members.len() {
                assert(after[i] == members[i]);
            }
        }
        if let Some(i) = member_at(after, name) {
            if i < members.len() {
                assert(after[i] == members[i]);
            }
        }
    }
}

/// A member is stored as what it is, and one that is not given is not stored.
pub proof fn law_members_read_back_as_they_were_set(
    members: Seq<(Seq<char>, JsonModel)>,
    name: Seq<char>,
    text: Seq<char>,
    number: int,
    flag: bool,
)
    ensures
        JsonModel::Object(with_text(members, name, text)).at(name).as_text() == Some(text),
        i64::MIN <= number <= i64::MAX ==> JsonModel::Object(with_number(members, name, number)).at(name).as_whole()
            == Some(number),
        JsonModel::Object(with_flag(members, name, flag)).at(name).as_flag() == Some(flag),
        JsonModel::Object(with_flag(members, name, flag)).is_set(name) == flag,
        0 <= number <= u64::MAX ==> JsonModel::Object(with_number(members, name, number)).count(name) == number,
        with_opt_text(members, name, None) == members && with_opt_number(members, name, None) == members,
        with_opt_text(members, name, Some(text)) == with_text(members, name, text),
        with_opt_number(members, name, Some(number)) == with_number(members, name, number),
        no_members().len() == 0,
{
    law_a_set_member_is_found(members, name, JsonModel::Text(text), name);
    law_a_set_member_is_found(members, name, JsonModel::Number(number), name);
    law_a_set_member_is_found(members, name, JsonModel::Bool(flag), name);
}

/// A value is read as what it is and as nothing else, and a member that is
/// missing is null.
pub proof fn law_a_value_is_read_as_what_it_is(value: JsonModel, name: Seq<char>, default: Seq<char>)
    ensures
        value.as_text() matches Some(text) ==> value == JsonModel::Text(text),
        value.as_flag() matches Some(flag) ==> value == JsonModel::Bool(flag),
        value.as_count() matches Some(count) ==> value == JsonModel::Number(count as int) && count <= u64::MAX,
        value.as_whole() matches Some(whole) ==> value == JsonModel::Number(whole) && i64::MIN <= whole <= i64::MAX,
        value matches JsonModel::Text(text) ==> value.as_text() == Some(text),
        value matches JsonModel::Bool(flag) ==> value.as_flag() == Some(flag),
        value matches JsonModel::Number(number) ==> (0 <= number <= u64::MAX ==> value.as_count() == Some(number as nat)),
        value matches JsonModel::Number(number) ==> (i64::MIN <= number <= i64::MAX ==> value.as_whole() == Some(number)),
        value matches JsonModel::List(items) ==> value.items() == items,
        !(value is List) ==> value.items().len() == 0,
        !(value is Object) ==> value.at(name) is Null,
        value.at(name).as_text() is Some ==> value.text_or(name, default) == value.at(name).as_text()->0,
        value.at(name).as_text() is None ==> value.text_or(name, default) == default,
        value.is_set(name) <==> value.at(name) == JsonModel::Bool(true),
        value.at(name).as_count() is None ==> value.count(name) == 0,
        value.at(name).as_count() is Some ==> value.count(name) == value.at(name).as_count()->0,
{
}

/// A name finds the first member that bears it, and setting a member leaves the
/// others in their places.
pub proof fn law_members_keep_their_places(members: Seq<(Seq<char>, JsonModel)>, name: Seq<char>, value: JsonModel)
    ensures
        member_at(members, name) matches Some(k) ==> 0 <= k < members.len() && members[k].0 == name && forall|i: int|
            0 <= i < k ==> (#[trigger] members[i]).0 != name,
        member_at(members, name) is None ==> forall|i: int|
            0 <= i < members.len() ==> (#[trigger] members[i]).0 != name,
        member_at(members, name) is None ==> with_member(members, name, value) == members.push((name, value)),
        member_at(members, name) matches Some(k) ==> with_member(members, name, value).len() == members.len() && forall|
            i: int,
        |
            0 <= i < members.len() && i != k ==> (#[trigger] with_member(members, name, value)[i]) == members[i],
    decreases members.len(),
{
    if members.len() > 0 {
        let front = members.drop_last();
        law_members_keep_their_places(front, name, value);
        assert forall|i: int| 0 <= i < front.len() implies #[trigger] members[i] == front[i] by {}
        if let Some(k) = member_at(front, name) {
            assert(members[k] == front[k]);
        }
    }
}

/// A list of texts holds each text in its place.
pub proof fn law_a_list_holds_its_texts(texts: Seq<Seq<char>>, k: int)
    requires
        0 <= k < texts.len(),
    ensures
        text_items(texts).items().len() == texts.len(),
        text_items(texts).items()[k].as_text() == Some(texts[k]),
{
}

/// A text that cannot be read is refused with what it was read for and why.
pub proof fn law_a_refused_text_says_why(text: Seq<char>, complaint: Seq<char>)
    ensures
        json_text(text) is Ok ==> parsed(text, complaint) == json_text(text),
        json_text(text) is Err ==> parsed(text, complaint) is Err && text::begins(
            parsed(text, complaint)->Err_0,
            complaint,
        ) && text::ends(parsed(text, complaint)->Err_0, json_text(text)->Err_0),
{
    if let Err(cause) = json_text(text) {
        text::law_grouping_does_not_matter(complaint, ": "@, cause);
        text::law_parts_occur(Seq::empty(), complaint, ": "@ + cause);
        text::law_parts_occur(complaint + ": "@, cause, Seq::empty());
    }
}

/// What a name finds once a member is set: the new value under its own name,
/// and what was there under any other.
pub broadcast proof fn member_after_set(
    members: Seq<(Seq<char>, JsonModel)>,
    name: Seq<char>,
    value: JsonModel,
    other: Seq<char>,
)
    ensures
        #[trigger] member_of(with_member(members, name, value), other) == (if other == name {
            Some(value)
        } else {
            member_of(members, other)
        }),
{
    law_a_set_member_is_found(members, name, value, other);
}

} // verus!
