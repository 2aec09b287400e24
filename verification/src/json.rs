//! A plain model of JSON values as they arrive in DevTools events and as the
//! library reads and builds them.  Numbers keep the three shapes that
//! `serde_json` distinguishes; a non-integer number is kept as the text that
//! `serde_json` renders for it, since the library only ever passes it on.
use vstd::prelude::*;
use crate::text::{decimal, i64_to_decimal, signed_decimal, u64_to_decimal};

verus! {

/// A JSON number.
pub enum JsonNumber {
    /// A non-negative integer.
    PosInt(u64),
    /// A negative integer.
    NegInt(i64),
    /// Any other number, as `serde_json` renders it.
    Float(String),
}

/// A JSON value.  An object's members keep their order; a member is found by
/// its first occurrence.
pub enum Json {
    Null,
    Bool(bool),
    Number(JsonNumber),
    Str(String),
    Array(Vec<Json>),
    Object(Vec<(String, Json)>),
}

/// The model of a JSON number.
pub enum NumberV {
    PosInt(u64),
    NegInt(i64),
    Float(Seq<char>),
}

/// The model of a JSON value: strings by their characters, arrays and objects
/// as sequences.
pub enum JsonV {
    Null,
    Bool(bool),
    Number(NumberV),
    Str(Seq<char>),
    Array(Seq<JsonV>),
    Object(Seq<(Seq<char>, JsonV)>),
}

/// The models of a sequence of values.
pub open spec fn views_of(s: Seq<Json>) -> Seq<JsonV>
    decreases s,
{
    if s.len() == 0 {
        Seq::empty()
    } else {
        views_of(s.drop_last()).push(s.last().view_json())
    }
}

/// The models of a sequence of members.
pub open spec fn member_views_of(s: Seq<(String, Json)>) -> Seq<(Seq<char>, JsonV)>
    decreases s,
{
    if s.len() == 0 {
        Seq::empty()
    } else {
        member_views_of(s.drop_last()).push((s.last().0@, s.last().1.view_json()))
    }
}

impl Json {
    /// The model of a value.
    pub open spec fn view_json(self) -> JsonV
        decreases self,
    {
        match self {
            Json::Null => JsonV::Null,
            Json::Bool(b) => JsonV::Bool(b),
            Json::Number(n) => JsonV::Number(match n {
                JsonNumber::PosInt(u) => NumberV::PosInt(u),
                JsonNumber::NegInt(i) => NumberV::NegInt(i),
                JsonNumber::Float(t) => NumberV::Float(t@),
            }),
            Json::Str(s) => JsonV::Str(s@),
            Json::Array(v) => JsonV::Array(views_of(v@)),
            Json::Object(m) => JsonV::Object(member_views_of(m@)),
        }
    }
}

impl View for Json {
    type V = JsonV;

    open spec fn view(&self) -> JsonV {
        self.view_json()
    }
}

/// The first member of `members` named `key`.
pub open spec fn find_member(members: Seq<(Seq<char>, JsonV)>, key: Seq<char>) -> Option<JsonV>
    decreases members.len(),
{
    if members.len() == 0 {
        None
    } else if members[0].0 == key {
        Some(members[0].1)
    } else {
        find_member(members.drop_first(), key)
    }
}

/// `j.get(key)`: the member `key` of an object, `None` for anything else.
pub open spec fn json_get(j: JsonV, key: Seq<char>) -> Option<JsonV> {
    match j {
        JsonV::Object(members) => find_member(members, key),
        _ => None,
    }
}

/// The member `key` of an optional object.
pub open spec fn opt_get(j: Option<JsonV>, key: Seq<char>) -> Option<JsonV> {
    match j {
        Some(v) => json_get(v, key),
        None => None,
    }
}

/// The characters of a JSON string.
pub open spec fn json_str(j: JsonV) -> Option<Seq<char>> {
    match j {
        JsonV::Str(s) => Some(s),
        _ => None,
    }
}

/// The characters of an optional JSON string.
pub open spec fn opt_str(j: Option<JsonV>) -> Option<Seq<char>> {
    match j {
        Some(v) => json_str(v),
        None => None,
    }
}

/// `as_i64`: an integer that fits in `i64`.
pub open spec fn json_i64(j: JsonV) -> Option<i64> {
    match j {
        JsonV::Number(NumberV::PosInt(u)) => if u <= i64::MAX { Some(u as i64) } else { None },
        JsonV::Number(NumberV::NegInt(i)) => Some(i),
        _ => None,
    }
}

/// `as_i64` of an optional value.
pub open spec fn opt_i64(j: Option<JsonV>) -> Option<i64> {
    match j {
        Some(v) => json_i64(v),
        None => None,
    }
}

/// `as_bool`.
pub open spec fn json_bool(j: JsonV) -> Option<bool> {
    match j {
        JsonV::Bool(b) => Some(b),
        _ => None,
    }
}

/// The elements of a JSON array.
pub open spec fn json_array(j: JsonV) -> Option<Seq<JsonV>> {
    match j {
        JsonV::Array(v) => Some(v),
        _ => None,
    }
}

/// The model of an optional owned value.
pub open spec fn owned_view(j: Option<Json>) -> Option<JsonV> {
    match j {
        Some(x) => Some(x@),
        None => None,
    }
}

/// The model of an optional value.
pub open spec fn opt_view(j: Option<&Json>) -> Option<JsonV> {
    match j {
        Some(x) => Some(x@),
        None => None,
    }
}

/// The characters `serde_json` prints for a value in compact form.
pub uninterp spec fn json_text(j: JsonV) -> Seq<char>;

/// The characters `serde_json::to_string_pretty` prints for a value.
pub uninterp spec fn json_pretty_text(j: JsonV) -> Seq<char>;

/// What `serde_json::from_str` makes of a text: the value, or the message
/// of its error.
pub uninterp spec fn parsed_json(text: Seq<char>) -> Result<JsonV, Seq<char>>;

/// The models of a sequence of values, element by element.
pub proof fn lemma_views_of(s: Seq<Json>)
    ensures
        views_of(s).len() == s.len(),
        forall|i: int| 0 <= i < s.len() ==> #[trigger] views_of(s)[i] == s[i]@,
    decreases s.len(),
{
    if s.len() > 0 {
        lemma_views_of(s.drop_last());
        assert forall|i: int| 0 <= i < s.len() implies #[trigger] views_of(s)[i] == s[i]@ by {
            if i < s.len() - 1 {
                assert(s.drop_last()[i] == s[i]);
            }
        }
    }
}

/// The models of a sequence of members, member by member.
pub proof fn lemma_member_views_of(s: Seq<(String, Json)>)
    ensures
        member_views_of(s).len() == s.len(),
        forall|i: int| 0 <= i < s.len() ==> #[trigger] member_views_of(s)[i] == (s[i].0@, s[i].1@),
    decreases s.len(),
{
    if s.len() > 0 {
        lemma_member_views_of(s.drop_last());
        assert forall|i: int| 0 <= i < s.len() implies #[trigger] member_views_of(s)[i] == (s[i].0@, s[i].1@) by {
            if i < s.len() - 1 {
                assert(s.drop_last()[i] == s[i]);
            }
        }
    }
}

/// Two sequences of values with equal models element by element have equal models.
pub proof fn lemma_views_of_eq(a: Seq<Json>, b: Seq<Json>)
    requires
        a.len() == b.len(),
        forall|i: int| 0 <= i < a.len() ==> #[trigger] a[i]@ == b[i]@,
    ensures
        views_of(a) == views_of(b),
{
    lemma_views_of(a);
    lemma_views_of(b);
    assert(views_of(a) =~= views_of(b));
}

/// Two sequences of members with equal models member by member have equal models.
pub proof fn lemma_member_views_of_eq(a: Seq<(String, Json)>, b: Seq<(String, Json)>)
    requires
        a.len() == b.len(),
        forall|i: int| 0 <= i < a.len() ==> #[trigger] a[i].0@ == b[i].0@,
        forall|i: int| 0 <= i < a.len() ==> #[trigger] a[i].1@ == b[i].1@,
    ensures
        member_views_of(a) == member_views_of(b),
{
    lemma_member_views_of(a);
    lemma_member_views_of(b);
    assert(member_views_of(a) =~= member_views_of(b));
}

impl Json {
    /// A copy of the value.
    pub fn duplicate(&self) -> (r: Json)
        ensures
            r@ == self@,
        decreases self,
    {
        match self {
            Json::Null => Json::Null,
            Json::Bool(b) => Json::Bool(*b),
            Json::Number(n) => Json::Number(match n {
                JsonNumber::PosInt(u) => JsonNumber::PosInt(*u),
                JsonNumber::NegInt(i) => JsonNumber::NegInt(*i),
                JsonNumber::Float(t) => JsonNumber::Float(t.clone()),
            }),
            Json::Str(s) => Json::Str(s.clone()),
            Json::Array(items) => {
                let mut out: Vec<Json> = Vec::new();
                let mut i: usize = 0;
                while i < items.len()
                    invariant
                        i <= items@.len(),
                        out@.len() == i,
                        forall|j: int| 0 <= j < i ==> #[trigger] out@[j]@ == items@[j]@,
                        *self == Json::Array(*items),
                    decreases items@.len() - i,
                {
                    proof {
                        assert(decreases_to!(*self => (*self)->Array_0));
                        assert(decreases_to!(*items => items@));
                        assert(decreases_to!(items@ => items@[i as int]));
                        assert(decreases_to!(*self => items@[i as int]));
                    }
                    out.push(items[i].duplicate());
                    i = i + 1;
                }
                proof { lemma_views_of_eq(out@, items@); }
                Json::Array(out)
            },
            Json::Object(members) => {
                let mut out: Vec<(String, Json)> = Vec::new();
                let mut i: usize = 0;
                while i < members.len()
                    invariant
                        i <= members@.len(),
                        out@.len() == i,
                        forall|j: int| 0 <= j < i ==> #[trigger] out@[j].0@ == members@[j].0@,
                        forall|j: int| 0 <= j < i ==> #[trigger] out@[j].1@ == members@[j].1@,
                        *self == Json::Object(*members),
                    decreases members@.len() - i,
                {
                    proof {
                        assert(decreases_to!(*self => (*self)->Object_0));
                        assert(decreases_to!(*members => members@));
                        assert(decreases_to!(members@ => members@[i as int]));
                        assert(decreases_to!(members@[i as int] => members@[i as int].1));
                        assert(decreases_to!(*self => members@[i as int].1));
                    }
                    let k = members[i].0.clone();
                    let v = members[i].1.duplicate();
                    out.push((k, v));
                    i = i + 1;
                }
                proof { lemma_member_views_of_eq(out@, members@); }
                Json::Object(out)
            },
        }
    }

    /// `value.get(key)`.
    pub fn get(&self, key: &str) -> (r: Option<&Json>)
        ensures
            opt_view(r) == json_get(self@, key@),
    {
        match self {
            Json::Object(members) => {
                proof { lemma_member_views_of(members@); }
                let ghost mv = member_views_of(members@);
                let target = key.to_owned();
                let mut i: usize = 0;
                assert(mv.subrange(0, mv.len() as int) =~= mv);
                while i < members.len()
                    invariant
                        i <= members@.len(),
                        target@ == key@,
                        mv == member_views_of(members@),
                        *self == Json::Object(*members),
                        mv.len() == members@.len(),
                        forall|j: int| 0 <= j < members@.len() ==> #[trigger] mv[j] == (members@[j].0@, members@[j].1@),
                        find_member(mv, key@) == find_member(mv.subrange(i as int, mv.len() as int), key@),
                    decreases members@.len() - i,
                {
                    let ghost rest = mv.subrange(i as int, mv.len() as int);
                    assert(rest[0] == mv[i as int]);
                    if members[i].0 == target {
                        return Some(&members[i].1);
                    }
                    assert(rest.drop_first() =~= mv.subrange(i + 1, mv.len() as int));
                    i = i + 1;
                }
                None
            },
            _ => None,
        }
    }

    /// `value.as_str()`.
    pub fn as_str(&self) -> (r: Option<&str>)
        ensures
            match r {
                Some(s) => json_str(self@) == Some(s@),
                None => json_str(self@) is None,
            },
    {
        match self {
            Json::Str(s) => Some(s.as_str()),
            _ => None,
        }
    }

    /// `value.as_i64()`.
    pub fn as_i64(&self) -> (r: Option<i64>)
        ensures
            r == json_i64(self@),
    {
        match self {
            Json::Number(JsonNumber::PosInt(u)) => if *u <= 9223372036854775807u64 { Some(*u as i64) } else { None },
            Json::Number(JsonNumber::NegInt(i)) => Some(*i),
            _ => None,
        }
    }

    /// `value.as_bool()`.
    pub fn as_bool(&self) -> (r: Option<bool>)
        ensures
            r == json_bool(self@),
    {
        match self {
            Json::Bool(b) => Some(*b),
            _ => None,
        }
    }

    /// `value.as_array()`.
    pub fn as_array(&self) -> (r: Option<&Vec<Json>>)
        ensures
            match r {
                Some(v) => json_array(self@) == Some(views_of(v@)),
                None => json_array(self@) is None,
            },
    {
        match self {
            Json::Array(v) => Some(v),
            _ => None,
        }
    }

    /// `value.is_number()`.
    pub fn is_number(&self) -> (b: bool)
        ensures
            b == (self@ is Number),
    {
        match self {
            Json::Number(_) => true,
            _ => false,
        }
    }

    /// `value.is_boolean()`.
    pub fn is_boolean(&self) -> (b: bool)
        ensures
            b == (self@ is Bool),
    {
        match self {
            Json::Bool(_) => true,
            _ => false,
        }
    }

    /// `value.is_object()`.
    pub fn is_object(&self) -> (b: bool)
        ensures
            b == (self@ is Object),
    {
        match self {
            Json::Object(_) => true,
            _ => false,
        }
    }

    /// An object with no members.
    pub fn empty_object() -> (r: Json)
        ensures
            r@ == JsonV::Object(Seq::empty()),
    {
        let r = Json::Object(Vec::new());
        assert(member_views_of(Seq::<(String, Json)>::empty()) =~= Seq::empty());
        r
    }
}

/// `opt.and_then(|p| p.get(key))`.
pub fn get_in<'a>(j: Option<&'a Json>, key: &str) -> (r: Option<&'a Json>)
    ensures
        opt_view(r) == opt_get(opt_view(j), key@),
{
    match j {
        Some(v) => v.get(key),
        None => None,
    }
}

/// `opt.and_then(|v| v.as_str())`.
pub fn str_in<'a>(j: Option<&'a Json>) -> (r: Option<&'a str>)
    ensures
        match r {
            Some(s) => opt_str(opt_view(j)) == Some(s@),
            None => opt_str(opt_view(j)) is None,
        },
{
    match j {
        Some(v) => v.as_str(),
        None => None,
    }
}

/// The model of a number.
pub open spec fn number_view(n: JsonNumber) -> NumberV {
    match n {
        JsonNumber::PosInt(u) => NumberV::PosInt(u),
        JsonNumber::NegInt(i) => NumberV::NegInt(i),
        JsonNumber::Float(t) => NumberV::Float(t@),
    }
}

/// The number a value holds, if it is one.
pub open spec fn json_number(j: JsonV) -> Option<NumberV> {
    match j {
        JsonV::Number(n) => Some(n),
        _ => None,
    }
}

impl JsonNumber {
    /// A copy of the number.
    pub fn copy(&self) -> (r: JsonNumber)
        ensures
            number_view(r) == number_view(*self),
    {
        match self {
            JsonNumber::PosInt(u) => JsonNumber::PosInt(*u),
            JsonNumber::NegInt(i) => JsonNumber::NegInt(*i),
            JsonNumber::Float(t) => JsonNumber::Float(t.clone()),
        }
    }
}

impl Json {
    /// The number a value holds, if it is one.
    pub fn as_number(&self) -> (r: Option<JsonNumber>)
        ensures
            match r {
                Some(n) => json_number(self@) == Some(number_view(n)),
                None => json_number(self@) is None,
            },
    {
        match self {
            Json::Number(n) => Some(n.copy()),
            _ => None,
        }
    }
}

/// The JSON of an optional text: the string, or `null`.
pub open spec fn opt_str_jv(o: Option<Seq<char>>) -> JsonV {
    match o {
        Some(s) => JsonV::Str(s),
        None => JsonV::Null,
    }
}

/// The JSON of an `i64`, as `serde_json` stores it.
pub open spec fn i64_jv(i: i64) -> JsonV {
    if i < 0 {
        JsonV::Number(NumberV::NegInt(i))
    } else {
        JsonV::Number(NumberV::PosInt(i as u64))
    }
}

/// The JSON of an optional `i64`.
pub open spec fn opt_i64_jv(o: Option<i64>) -> JsonV {
    match o {
        Some(i) => i64_jv(i),
        None => JsonV::Null,
    }
}

/// An optional value, or `null`.
pub open spec fn opt_jv(o: Option<JsonV>) -> JsonV {
    match o {
        Some(v) => v,
        None => JsonV::Null,
    }
}

/// A string value.
pub fn str_json(s: &str) -> (r: Json)
    ensures
        r@ == JsonV::Str(s@),
{
    Json::Str(s.to_owned())
}

/// An optional text as JSON.
pub fn opt_str_json(o: &Option<String>) -> (r: Json)
    ensures
        r@ == opt_str_jv(match o { Some(s) => Some(s@), None => None::<Seq<char>> }),
{
    match o {
        Some(s) => Json::Str(s.clone()),
        None => Json::Null,
    }
}

/// An `i64` as JSON.
pub fn i64_json(i: i64) -> (r: Json)
    ensures
        r@ == i64_jv(i),
{
    if i < 0 {
        Json::Number(JsonNumber::NegInt(i))
    } else {
        Json::Number(JsonNumber::PosInt(i as u64))
    }
}

/// An optional `i64` as JSON.
pub fn opt_i64_json(o: Option<i64>) -> (r: Json)
    ensures
        r@ == opt_i64_jv(o),
{
    match o {
        Some(i) => i64_json(i),
        None => Json::Null,
    }
}

/// An optional value, or `null`.
pub fn opt_json(o: &Option<Json>) -> (r: Json)
    ensures
        r@ == opt_jv(owned_view(*o)),
{
    match o {
        Some(j) => j.duplicate(),
        None => Json::Null,
    }
}

/// An object built from members, in order.
pub fn object(members: Vec<(String, Json)>) -> (r: Json)
    ensures
        r@ == JsonV::Object(member_views_of(members@)),
{
    Json::Object(members)
}

/// Builds an object from members whose models are given.
pub(crate) fn object_of(members: Vec<(String, Json)>, Ghost(expected): Ghost<Seq<(Seq<char>, JsonV)>>) -> (r: Json)
    requires
        members@.len() == expected.len(),
        forall|i: int| 0 <= i < expected.len() ==> #[trigger] expected[i] == (members@[i].0@, members@[i].1@),
    ensures
        r@ == JsonV::Object(expected),
{
    proof {
        lemma_member_views_of(members@);
        assert(member_views_of(members@) =~= expected);
    }
    object(members)
}

/// Builds an array from elements whose models are given.
pub(crate) fn array_of(items: Vec<Json>, Ghost(expected): Ghost<Seq<JsonV>>) -> (r: Json)
    requires
        items@.len() == expected.len(),
        forall|i: int| 0 <= i < expected.len() ==> #[trigger] expected[i] == items@[i]@,
    ensures
        r@ == JsonV::Array(expected),
{
    proof {
        lemma_views_of(items@);
        assert(views_of(items@) =~= expected);
    }
    array(items)
}

/// An array built from elements, in order.
pub fn array(items: Vec<Json>) -> (r: Json)
    ensures
        r@ == JsonV::Array(views_of(items@)),
{
    Json::Array(items)
}

/// The text of a JSON scalar as `serde_json` prints it: the digits of an
/// integer, `true`/`false`, the stored rendering of other numbers.
pub open spec fn scalar_text(j: JsonV) -> Seq<char> {
    match j {
        JsonV::Null => "null"@,
        JsonV::Bool(b) => if b { "true"@ } else { "false"@ },
        JsonV::Number(NumberV::PosInt(u)) => decimal(u as nat),
        JsonV::Number(NumberV::NegInt(i)) => signed_decimal(i as int),
        JsonV::Number(NumberV::Float(t)) => t,
        _ => json_text(j),
    }
}

/// Renders a value in compact JSON, as `value.to_string()` does.
pub fn render(j: &Json) -> (r: String)
    ensures
        r@ == scalar_text(j@),
{
    match j {
        Json::Null => "null".to_owned(),
        Json::Bool(b) => if *b { "true".to_owned() } else { "false".to_owned() },
        Json::Number(JsonNumber::PosInt(u)) => u64_to_decimal(*u),
        Json::Number(JsonNumber::NegInt(i)) => i64_to_decimal(*i),
        Json::Number(JsonNumber::Float(t)) => t.clone(),
        _ => render_compound(j),
    }
}

#[verifier::external_type_specification]
#[verifier::external_body]
pub struct ExSerdeValue(serde_json::Value);

/// Converts a `serde_json` value member by member; numbers keep the shape
/// `serde_json` gives them (`as_u64`, else `as_i64`, else its rendering).
#[verifier::external_body]
fn from_serde(v: serde_json::Value) -> Json {
    match v {
        serde_json::Value::Null => Json::Null,
        serde_json::Value::Bool(b) => Json::Bool(b),
        serde_json::Value::Number(n) => Json::Number(match (n.as_u64(), n.as_i64()) {
            (Some(u), _) => JsonNumber::PosInt(u),
            (None, Some(i)) => JsonNumber::NegInt(i),
            (None, None) => JsonNumber::Float(n.to_string()),
        }),
        serde_json::Value::String(s) => Json::Str(s),
        serde_json::Value::Array(a) => Json::Array(a.into_iter().map(from_serde).collect()),
        serde_json::Value::Object(m) => Json::Object(m.into_iter().map(|(k, v)| (k, from_serde(v))).collect()),
    }
}

/// Converts a value back into a `serde_json` value member by member.
#[verifier::external_body]
fn to_serde(j: &Json) -> serde_json::Value {
    match j {
        Json::Null => serde_json::Value::Null,
        Json::Bool(b) => serde_json::Value::Bool(*b),
        Json::Number(JsonNumber::PosInt(u)) => serde_json::Value::from(*u),
        Json::Number(JsonNumber::NegInt(i)) => serde_json::Value::from(*i),
        Json::Number(JsonNumber::Float(t)) => serde_json::from_str(t).unwrap_or(serde_json::Value::Null),
        Json::Str(s) => serde_json::Value::String(s.clone()),
        Json::Array(a) => serde_json::Value::Array(a.iter().map(to_serde).collect()),
        Json::Object(m) => serde_json::Value::Object(m.iter().map(|(k, v)| (k.clone(), to_serde(v))).collect()),
    }
}

/// Parses a text as JSON with `serde_json::from_str`; on failure, the
/// message of its error.  What the parser accepts and builds, and the wording
/// of its errors, are left to its name.
#[verifier::external_body]
pub(crate) fn parse_value(text: &str) -> (r: Result<Json, String>)
    ensures
        match r {
            Ok(j) => parsed_json(text@) == Ok::<JsonV, Seq<char>>(j@),
            Err(e) => parsed_json(text@) == Err::<JsonV, Seq<char>>(e@),
        },
{
    match serde_json::from_str::<serde_json::Value>(text) {
        Ok(v) => Ok(from_serde(v)),
        Err(e) => Err(e.to_string()),
    }
}

/// Parses a JSON text into a value; on failure, the parser's message.
pub fn parse_json(text: &str) -> (r: Result<Json, String>)
    ensures
        match r {
            Ok(j) => parsed_json(text@) == Ok::<JsonV, Seq<char>>(j@),
            Err(e) => parsed_json(text@) == Err::<JsonV, Seq<char>>(e@),
        },
{
    parse_value(text)
}

/// Prints a value in compact JSON with `serde_json`'s `Display`.
#[verifier::external_body]
fn render_compound(j: &Json) -> (r: String)
    ensures
        r@ == json_text(j@),
{
    to_serde(j).to_string()
}

/// Prints a value in indented JSON with `serde_json::to_string_pretty`,
/// which cannot fail on a value.
#[verifier::external_body]
pub(crate) fn render_pretty(j: &Json) -> (r: String)
    ensures
        r@ == json_pretty_text(j@),
{
    serde_json::to_string_pretty(&to_serde(j)).unwrap_or_default()
}

} // verus!
