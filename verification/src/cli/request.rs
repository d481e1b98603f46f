//! Requests to the control API.
use vstd::prelude::*;
use crate::json;
use crate::json::{Body, Json};
use crate::text;

verus! {

broadcast use vstd::seq::group_seq_axioms;

/// The method of a request.
#[derive(Debug, Clone, Copy, PartialEq, Eq, Structural)]
pub enum Method {
    Get,
    Post,
    Put,
    Delete,
}

/// A request to the control API.
#[derive(Debug)]
pub struct Request {
    pub method: Method,
    pub path: String,
    pub body: Option<Json>,
}

/// What a request is.
pub struct RequestModel {
    pub method: Method,
    pub path: Seq<char>,
    pub body: Option<json::JsonModel>,
}

impl View for Request {
    type V = RequestModel;

    open spec fn view(&self) -> RequestModel {
        RequestModel {
            method: self.method,
            path: self.path@,
            body: match self.body {
                Some(body) => Some(body@),
                None => None,
            },
        }
    }
}

/// A request to read.
pub open spec fn reads(path: Seq<char>) -> RequestModel {
    RequestModel { method: Method::Get, path, body: None }
}

/// A request to delete.
pub open spec fn deletes(path: Seq<char>) -> RequestModel {
    RequestModel { method: Method::Delete, path, body: None }
}

/// A request with an object.
pub open spec fn sends(method: Method, path: Seq<char>, members: Seq<(Seq<char>, json::JsonModel)>) -> RequestModel {
    RequestModel { method, path, body: Some(json::JsonModel::Object(members)) }
}

impl Request {
    /// A request to read.
    pub fn get(path: String) -> (request: Request)
        ensures
            request@ == reads(path@),
    {
        Request { method: Method::Get, path, body: None }
    }

    /// A request to delete.
    pub fn delete(path: String) -> (request: Request)
        ensures
            request@ == deletes(path@),
    {
        Request { method: Method::Delete, path, body: None }
    }

    /// A request with an empty object.
    pub fn bare(method: Method, path: &str) -> (request: Request)
        ensures
            request@ == sends(method, path@, json::no_members()),
    {
        Request::with(method, path.to_owned(), Body::new())
    }

    /// A request with an object.
    pub fn with(method: Method, path: String, body: Body) -> (request: Request)
        ensures
            request@ == sends(method, path@, body@),
    {
        Request { method, path, body: Some(body.object()) }
    }
}

/// What a planned request is, or why there is none.
pub open spec fn planned(plan: Result<Request, String>) -> Result<RequestModel, Seq<char>> {
    match plan {
        Ok(request) => Ok(request@),
        Err(reason) => Err(reason@),
    }
}

// ---------------------------------------------------------------------------
// Queries
// ---------------------------------------------------------------------------

/// Whether a byte stands for itself in a query.
pub open spec fn stands_for_itself(byte: u8) -> bool {
    ||| 48 <= byte <= 57
    ||| 65 <= byte <= 90
    ||| 97 <= byte <= 122
    ||| byte == 45
    ||| byte == 46
    ||| byte == 95
    ||| byte == 126
}

/// A hexadecimal digit, in upper case.
pub open spec fn hex_digit(n: int) -> char {
    if n < 10 {
        (48 + n) as char
    } else {
        (55 + n) as char
    }
}

/// Bytes with every byte but letters, digits and `-`, `_`, `.`, `~` written as
/// `%` and two hexadecimal digits.
pub open spec fn percent_encoded(bytes: Seq<u8>) -> Seq<char>
    decreases bytes.len(),
{
    if bytes.len() == 0 {
        Seq::empty()
    } else {
        let byte = bytes.last();
        let front = percent_encoded(bytes.drop_last());
        if stands_for_itself(byte) {
            front.push(byte as char)
        } else {
            front.push('%').push(hex_digit(byte as int / 16)).push(hex_digit(byte as int % 16))
        }
    }
}

/// A text as it stands in a query.
pub open spec fn in_query(s: Seq<char>) -> Seq<char> {
    percent_encoded(vstd::utf8::encode_utf8(s))
}

/// Calls `urlencoding::encode`, which percent-encodes every byte of the UTF-8
/// form except letters, digits and `-`, `_`, `.`, `~`.
#[verifier::external_body]
pub(crate) fn encode(s: &str) -> (encoded: String)
    ensures
        encoded@ == in_query(s@),
{
    urlencoding::encode(s).into_owned()
}

/// The parameters of a query.
#[derive(Debug)]
pub struct Query {
    pub parts: Vec<String>,
}

impl View for Query {
    type V = Seq<Seq<char>>;

    open spec fn view(&self) -> Seq<Seq<char>> {
        text::texts(self.parts@)
    }
}

/// Parameters with one more.
pub open spec fn with_param(parts: Seq<Seq<char>>, name: Seq<char>, raw: Seq<char>) -> Seq<Seq<char>> {
    parts.push(name + "="@ + raw)
}

/// Parameters with a text.
pub open spec fn with_text(parts: Seq<Seq<char>>, name: Seq<char>, value: Seq<char>) -> Seq<Seq<char>> {
    with_param(parts, name, in_query(value))
}

/// Parameters with a text, where there is one.
pub open spec fn with_opt_text(parts: Seq<Seq<char>>, name: Seq<char>, value: Option<Seq<char>>) -> Seq<Seq<char>> {
    match value {
        Some(value) => with_text(parts, name, value),
        None => parts,
    }
}

/// Parameters with a number.
pub open spec fn with_number(parts: Seq<Seq<char>>, name: Seq<char>, value: int) -> Seq<Seq<char>> {
    with_param(parts, name, text::signed_decimal(value))
}

/// Parameters with a number, where there is one.
pub open spec fn with_opt_number(parts: Seq<Seq<char>>, name: Seq<char>, value: Option<int>) -> Seq<Seq<char>> {
    match value {
        Some(value) => with_number(parts, name, value),
        None => parts,
    }
}

/// No parameters.
pub open spec fn no_params() -> Seq<Seq<char>> {
    Seq::empty()
}

/// A path with its query.
pub open spec fn with_query(path: Seq<char>, parts: Seq<Seq<char>>) -> Seq<char> {
    path + "?"@ + text::joined(parts, "&"@)
}

/// A path with its query, where there is one.
pub open spec fn with_any_query(path: Seq<char>, parts: Seq<Seq<char>>) -> Seq<char> {
    if parts.len() == 0 {
        path
    } else {
        with_query(path, parts)
    }
}

/// Parameters with a count.
pub open spec fn with_count(parts: Seq<Seq<char>>, name: Seq<char>, value: nat) -> Seq<Seq<char>> {
    with_param(parts, name, text::decimal(value))
}

/// Parameters with a count, where there is one.
pub open spec fn with_opt_count(parts: Seq<Seq<char>>, name: Seq<char>, value: Option<usize>) -> Seq<Seq<char>> {
    match value {
        Some(value) => with_count(parts, name, value as nat),
        None => parts,
    }
}

impl Query {
    /// A query without parameters.
    pub fn new() -> (query: Self)
        ensures
            query@ == no_params(),
    {
        let query = Query { parts: Vec::new() };
        assert(query@ =~= no_params());
        query
    }

    fn param(&mut self, name: &str, raw: &str)
        ensures
            final(self)@ == with_param(old(self)@, name@, raw@),
    {
        let mut part = name.to_owned();
        part.push_str("=");
        part.push_str(raw);
        proof {
            text::texts_push(self.parts@, part);
        }
        self.parts.push(part);
    }

    /// Adds a text.
    pub fn text(&mut self, name: &str, value: &str)
        ensures
            final(self)@ == with_text(old(self)@, name@, value@),
    {
        let encoded = encode(value);
        self.param(name, encoded.as_str());
    }

    /// Adds a text, where there is one.
    pub fn opt_text(&mut self, name: &str, value: &Option<String>)
        ensures
            final(self)@ == with_opt_text(old(self)@, name@, text::opt_text(*value)),
    {
        if let Some(value) = value {
            self.text(name, value.as_str());
        }
    }

    /// Adds a number.
    pub fn number(&mut self, name: &str, value: i64)
        ensures
            final(self)@ == with_number(old(self)@, name@, value as int),
    {
        let shown = text::show_signed(value);
        self.param(name, shown.as_str());
    }

    /// Adds a number, where there is one.
    pub fn opt_number(&mut self, name: &str, value: Option<i64>)
        ensures
            final(self)@ == with_opt_number(old(self)@, name@, json::opt_int(value)),
    {
        if let Some(value) = value {
            self.number(name, value);
        }
    }

    /// Adds a count, where there is one.
    pub fn opt_count(&mut self, name: &str, value: Option<usize>)
        ensures
            final(self)@ == with_opt_count(old(self)@, name@, value),
    {
        if let Some(value) = value {
            let shown = text::show_usize(value);
            self.param(name, shown.as_str());
        }
    }

    /// Adds a word as it stands.
    pub fn word(&mut self, name: &str, value: &str)
        ensures
            final(self)@ == with_param(old(self)@, name@, value@),
    {
        self.param(name, value);
    }

    /// The path with the query.
    pub fn after(&self, path: &str) -> (whole: String)
        ensures
            whole@ == with_query(path@, self@),
    {
        let mut whole = path.to_owned();
        whole.push_str("?");
        whole.push_str(text::join(&self.parts, "&").as_str());
        whole
    }
}

impl Query {
    /// The path with the query, where there is one.
    pub fn after_if_any(&self, path: &str) -> (whole: String)
        ensures
            whole@ == with_any_query(path@, self@),
    {
        if self.parts.len() == 0 {
            return path.to_owned();
        }
        self.after(path)
    }
}

/// A path with a number in it.
pub fn path_with(before: &str, number: i64, after: &str) -> (path: String)
    ensures
        path@ == before@ + text::signed_decimal(number as int) + after@,
{
    let mut path = before.to_owned();
    path.push_str(text::show_signed(number).as_str());
    path.push_str(after);
    path
}

/// A path with a text in it, as it stands.
pub fn path_around(before: &str, value: &str, after: &str) -> (path: String)
    ensures
        path@ == before@ + value@ + after@,
{
    let mut path = before.to_owned();
    path.push_str(value);
    path.push_str(after);
    path
}

/// A path with a text in it, as it stands in a query.
pub fn path_with_text(before: &str, value: &str, after: &str) -> (path: String)
    ensures
        path@ == before@ + in_query(value@) + after@,
{
    let mut path = before.to_owned();
    path.push_str(encode(value).as_str());
    path.push_str(after);
    path
}

// ---------------------------------------------------------------------------
// Laws
// ---------------------------------------------------------------------------

proof fn hex_digits(n: int)
    requires
        0 <= n < 16,
    ensures
        '0' <= hex_digit(n) <= '9' || 'A' <= hex_digit(n) <= 'F',
{
}

/// A character that cannot end or split a parameter.
pub open spec fn harmless(c: char) -> bool {
    c == '%' || c == '-' || c == '.' || c == '_' || c == '~' || '0' <= c <= '9' || 'A' <= c <= 'Z' || 'a' <= c <= 'z'
}

proof fn encoded_bytes_are_harmless(bytes: Seq<u8>, k: int)
    requires
        0 <= k < percent_encoded(bytes).len(),
    ensures
        harmless(percent_encoded(bytes)[k]),
    decreases bytes.len(),
{
    if bytes.len() > 0 {
        let front = percent_encoded(bytes.drop_last());
        let byte = bytes.last();
        if k < front.len() {
            encoded_bytes_are_harmless(bytes.drop_last(), k);
        } else if !stands_for_itself(byte) {
            hex_digits(byte as int / 16);
            hex_digits(byte as int % 16);
        }
    }
}

/// Whatever a text holds, its form in a query holds nothing that would end or
/// split the parameter.
pub proof fn law_encoded_values_stay_one_parameter(s: Seq<char>, k: int)
    requires
        0 <= k < in_query(s).len(),
    ensures
        harmless(in_query(s)[k]),
        in_query(s)[k] != '&',
        in_query(s)[k] != '=',
        in_query(s)[k] != '#',
        in_query(s)[k] != '?',
        in_query(s)[k] != '/',
        in_query(s)[k] != ' ',
{
    encoded_bytes_are_harmless(vstd::utf8::encode_utf8(s), k);
}

/// A read and a deletion send nothing, and what is sent is an object.
pub proof fn law_only_what_is_sent_has_a_body(path: Seq<char>, method: Method, members: Seq<(Seq<char>, json::JsonModel)>)
    ensures
        reads(path).method == Method::Get && reads(path).body is None && reads(path).path == path,
        deletes(path).method == Method::Delete && deletes(path).body is None && deletes(path).path == path,
        sends(method, path, members).method == method && sends(method, path, members).path == path,
        sends(method, path, members).body == Some(json::JsonModel::Object(members)),
{
}

/// What a hexadecimal digit is worth.
pub open spec fn digit_value(c: char) -> int {
    if '0' <= c <= '9' {
        c as int - '0' as int
    } else {
        c as int - 'A' as int + 10
    }
}

/// What an encoded text stands for: a percent sign and two digits stand for a
/// byte, and every other character for itself.
pub open spec fn decoded(s: Seq<char>) -> Seq<int>
    decreases s.len(),
{
    if s.len() == 0 {
        Seq::empty()
    } else if s[0] == '%' && s.len() >= 3 {
        seq![digit_value(s[1]) * 16 + digit_value(s[2])] + decoded(s.subrange(3, s.len() as int))
    } else {
        seq![s[0] as int] + decoded(s.subrange(1, s.len() as int))
    }
}

/// An encoded value stands for its own bytes, each of them and in order.
pub proof fn law_encoded_values_read_back(bytes: Seq<u8>)
    ensures
        decoded(percent_encoded(bytes)) == bytes.map_values(|byte: u8| byte as int),
    decreases bytes.len(),
{
    let encoded = percent_encoded(bytes);
    let whole = bytes.map_values(|byte: u8| byte as int);
    if bytes.len() == 0 {
        assert(decoded(encoded) =~= whole);
    } else {
        let rest = bytes.subrange(1, bytes.len() as int);
        let first = percent_encoded(seq![bytes[0]]);
        law_encoded_values_read_back(rest);
        assert(seq![bytes[0]] + rest =~= bytes);
        encoded_byte_by_byte(seq![bytes[0]], rest);
        let tail = percent_encoded(rest);
        assert(encoded =~= first + tail);
        assert(seq![bytes[0]].drop_last() =~= Seq::<u8>::empty());
        assert(percent_encoded(seq![bytes[0]].drop_last()) =~= Seq::<char>::empty());
        let byte = bytes[0];
        if stands_for_itself(byte) {
            assert(first =~= seq![byte as char]);
            assert(encoded[0] != '%');
            assert(encoded.subrange(1, encoded.len() as int) =~= tail);
            assert(decoded(encoded) =~= seq![byte as int] + decoded(tail));
        } else {
            let (high, low) = (byte as int / 16, byte as int % 16);
            assert(0 <= high < 16 && 0 <= low < 16);
            assert(first =~= seq!['%', hex_digit(high), hex_digit(low)]);
            assert(encoded.subrange(3, encoded.len() as int) =~= tail);
            assert(encoded[1] == hex_digit(high) && encoded[2] == hex_digit(low));
            assert(digit_value(hex_digit(high)) == high && digit_value(hex_digit(low)) == low);
            assert(decoded(encoded) =~= seq![byte as int] + decoded(tail));
        }
        assert(seq![byte as int] + rest.map_values(|byte: u8| byte as int) =~= whole);
    }
}

proof fn encoded_byte_by_byte(first: Seq<u8>, second: Seq<u8>)
    ensures
        percent_encoded(first + second) == percent_encoded(first) + percent_encoded(second),
    decreases second.len(),
{
    let all = first + second;
    if second.len() == 0 {
        assert(all =~= first);
        assert(percent_encoded(second) =~= Seq::<char>::empty());
    } else {
        assert(all.drop_last() =~= first + second.drop_last());
        assert(all.last() == second.last());
        encoded_byte_by_byte(first, second.drop_last());
    }
    assert(percent_encoded(all) =~= percent_encoded(first) + percent_encoded(second));
}

/// A byte stands for itself exactly where it is a letter, a digit or one of four
/// signs.
pub proof fn law_letters_digits_and_four_signs_stand_for_themselves(c: char)
    requires
        (c as int) < 128,
    ensures
        stands_for_itself(c as u8) <==> 'a' <= c <= 'z' || 'A' <= c <= 'Z' || '0' <= c <= '9' || c == '-' || c == '.' || c
            == '_' || c == '~',
{
}

/// A parameter is added behind the others, its name before its value; one that
/// is not given is not added.
pub proof fn law_parameters_are_added_in_order(
    parts: Seq<Seq<char>>,
    name: Seq<char>,
    value: Seq<char>,
    number: int,
    count: usize,
)
    ensures
        with_text(parts, name, value).drop_last() == parts,
        text::begins(with_text(parts, name, value).last(), name + "="@),
        text::ends(with_text(parts, name, value).last(), in_query(value)),
        with_number(parts, name, number) == parts.push(name + "="@ + text::signed_decimal(number)),
        with_count(parts, name, count as nat) == with_number(parts, name, count as int),
        with_opt_text(parts, name, None) == parts && with_opt_number(parts, name, None) == parts && with_opt_count(
            parts,
            name,
            None,
        ) == parts,
        with_opt_text(parts, name, Some(value)) == with_text(parts, name, value),
        with_opt_number(parts, name, Some(number)) == with_number(parts, name, number),
        with_opt_count(parts, name, Some(count)) == with_number(parts, name, count as int),
        no_params().len() == 0,
{
    assert(with_text(parts, name, value).drop_last() =~= parts);
    text::law_parts_occur(Seq::empty(), name + "="@, in_query(value));
    text::law_parts_occur(name + "="@, in_query(value), Seq::empty());
}

/// A query stands behind its path and a question mark, its parameters joined by
/// ampersands; without parameters there is none.
pub proof fn law_a_query_stands_behind_its_path(path: Seq<char>, parts: Seq<Seq<char>>)
    ensures
        parts.len() == 0 ==> with_any_query(path, parts) == path,
        parts.len() > 0 ==> with_any_query(path, parts) == with_query(path, parts),
        text::begins(with_query(path, parts), path + "?"@),
        text::ends(with_query(path, parts), text::joined(parts, "&"@)),
{
    text::law_parts_occur(Seq::empty(), path + "?"@, text::joined(parts, "&"@));
    text::law_parts_occur(path + "?"@, text::joined(parts, "&"@), Seq::empty());
}

/// What a query held it still holds once a parameter is offered, and the
/// parameter too where it is given.
pub broadcast proof fn params_after_text(parts: Seq<Seq<char>>, name: Seq<char>, value: Option<Seq<char>>, part: Seq<char>)
    ensures
        #[trigger] with_opt_text(parts, name, value).contains(part) <==> parts.contains(part) || value is Some && part
            == name + "="@ + in_query(value->0),
{
    if let Some(value) = value {
        let new = name + "="@ + in_query(value);
        let all = parts.push(new);
        assert(with_opt_text(parts, name, Some(value)) == all);
        assert(all[parts.len() as int] == new);
        if parts.contains(part) {
            let k = choose|k: int| 0 <= k < parts.len() && parts[k] == part;
            assert(all[k] == part);
        }
        if all.contains(part) && part != new {
            let k = choose|k: int| 0 <= k < all.len() && all[k] == part;
            assert(parts[k] == part);
        }
    }
}

/// What a query held it still holds once a parameter is added, and the parameter
/// too.
pub broadcast proof fn params_after_param(parts: Seq<Seq<char>>, name: Seq<char>, raw: Seq<char>, part: Seq<char>)
    ensures
        #[trigger] with_param(parts, name, raw).contains(part) <==> parts.contains(part) || part == name + "="@ + raw,
{
    let new = name + "="@ + raw;
    let all = parts.push(new);
    assert(all[parts.len() as int] == new);
    if parts.contains(part) {
        let k = choose|k: int| 0 <= k < parts.len() && parts[k] == part;
        assert(all[k] == part);
    }
    if all.contains(part) && part != new {
        let k = choose|k: int| 0 <= k < all.len() && all[k] == part;
        assert(parts[k] == part);
    }
}

/// Whatever is asked for stands in the address.
pub proof fn law_parameters_stand_in_the_address(path: Seq<char>, parts: Seq<Seq<char>>, part: Seq<char>)
    requires
        parts.contains(part),
    ensures
        text::occurs_in(with_query(path, parts), part),
        text::occurs_in(with_any_query(path, parts), part),
        text::begins(with_query(path, parts), path),
{
    let k = choose|k: int| 0 <= k < parts.len() && parts[k] == part;
    let whole = text::joined(parts, "&"@);
    part_is_joined(parts, k);
    let i = choose|i: int| text::occurs_at(whole, part, i);
    let head = path + "?"@;
    let all = head + whole;
    let at = head.len() + i;
    assert(all.subrange(at, at + part.len()) =~= whole.subrange(i, i + part.len()));
    assert(text::occurs_at(all, part, at));
    assert(all.subrange(0, path.len() as int) =~= path);
}

proof fn part_is_joined(parts: Seq<Seq<char>>, k: int)
    requires
        0 <= k < parts.len(),
    ensures
        text::occurs_in(text::joined(parts, "&"@), parts[k]),
    decreases parts.len(),
{
    let whole = text::joined(parts, "&"@);
    let part = parts[k];
    if parts.len() == 1 {
        assert(whole.subrange(0, part.len() as int) =~= part);
        assert(text::occurs_at(whole, part, 0));
    } else {
        let front = parts.drop_last();
        let before = text::joined(front, "&"@);
        if k < front.len() {
            part_is_joined(front, k);
            let i = choose|i: int| text::occurs_at(before, part, i);
            assert(whole.subrange(i, i + part.len()) =~= before.subrange(i, i + part.len()));
            assert(text::occurs_at(whole, part, i));
        } else {
            let i = (before + "&"@).len() as int;
            assert(whole.subrange(i, i + part.len()) =~= part);
            assert(text::occurs_at(whole, part, i));
        }
    }
}

} // verus!
