use vstd::prelude::*;

verus! {

/// A JSON document, as far as this library reads it.
#[derive(Debug)]
pub enum Json {
    Null,
    Bool(bool),
    /// A number, with its value where it is an integer that fits in `i64`.
    Number(Option<i64>),
    Str(String),
    Array(Vec<Json>),
    /// The members of an object, in the order the decoder listed them.
    Object(Vec<(String, Json)>),
}

/// The JSON document that `body` holds, or `None` where `body` is not JSON.
pub uninterp spec fn json_document(body: Seq<u8>) -> Option<Json>;

/// serde_json's document tree, held opaque; declared because `from_value`
/// takes it as its argument.
#[verifier::external_type_specification]
#[verifier::external_body]
pub struct ExValue(serde_json::Value);

/// Relies on `serde_json::from_slice`, which decodes a JSON text into a
/// document tree or reports that the bytes are not JSON.
#[verifier::external_body]
pub(crate) fn parse_document(body: &[u8]) -> (r: Option<Json>)
    ensures
        r == json_document(body@),
{
    serde_json::from_slice::<serde_json::Value>(body).ok().map(from_value)
}

/// Moves the tree that `parse_document` decoded into a `Json`, node by node
/// and member by member in serde_json's order; a number keeps the value that
/// `serde_json::Number::as_i64` gives it.
#[verifier::external_body]
fn from_value(v: serde_json::Value) -> Json {
    match v {
        serde_json::Value::Null => Json::Null,
        serde_json::Value::Bool(b) => Json::Bool(b),
        serde_json::Value::Number(n) => Json::Number(n.as_i64()),
        serde_json::Value::String(s) => Json::Str(s),
        serde_json::Value::Array(a) => Json::Array(a.into_iter().map(from_value).collect()),
        serde_json::Value::Object(m) => Json::Object(
            m.into_iter().map(|(k, v)| (k, from_value(v))).collect(),
        ),
    }
}

/// The value of the first member of `members` named `key`.
pub open spec fn member(members: Seq<(String, Json)>, key: Seq<char>) -> Option<Json>
    decreases members.len(),
{
    if members.len() == 0 {
        None
    } else if members[0].0@ == key {
        Some(members[0].1)
    } else {
        member(members.drop_first(), key)
    }
}

/// The position of the first member named `key`.
pub fn find_member(members: &Vec<(String, Json)>, key: &String) -> (r: Option<usize>)
    ensures
        match r {
            Some(i) => i < members@.len() && member(members@, key@) == Some(members@[i as int].1),
            None => member(members@, key@) is None,
        },
{
    let mut i: usize = 0;
    assert(members@.subrange(0, members@.len() as int) =~= members@);
    while i < members.len()
        invariant
            i <= members@.len(),
            member(members@, key@) == member(members@.subrange(i as int, members@.len() as int), key@),
        decreases members.len() - i,
    {
        let ghost rest = members@.subrange(i as int, members@.len() as int);
        if members[i].0 == *key {
            return Some(i);
        }
        assert(rest.drop_first() =~= members@.subrange(i + 1, members@.len() as int));
        i += 1;
    }
    None
}

/// What a text member reads: its text, or `fallback` where it is absent or not text.
pub open spec fn text_or(members: Seq<(String, Json)>, key: Seq<char>, fallback: Seq<char>) -> Seq<char> {
    match member(members, key) {
        Some(Json::Str(s)) => s@,
        _ => fallback,
    }
}

/// The text of member `key`, where it is text.
pub fn text_member(members: &Vec<(String, Json)>, key: &String) -> (r: Option<String>)
    ensures
        match member(members@, key@) {
            Some(Json::Str(s)) => r == Some(s),
            _ => r is None,
        },
{
    match find_member(members, key) {
        Some(i) => match &members[i].1 {
            Json::Str(s) => Some(s.clone()),
            _ => None,
        },
        None => None,
    }
}

/// The number in member `key`, where it is a number.
pub fn number_member(members: &Vec<(String, Json)>, key: &String) -> (r: Option<Option<i64>>)
    ensures
        match member(members@, key@) {
            Some(Json::Number(n)) => r == Some(n),
            _ => r is None,
        },
{
    match find_member(members, key) {
        Some(i) => match &members[i].1 {
            Json::Number(n) => Some(*n),
            _ => None,
        },
        None => None,
    }
}

/// `x` reduced into `i32` by keeping its low 32 bits, as an `as` cast does.
pub open spec fn wrap_i32(x: int) -> int {
    let m = x % 0x1_0000_0000;
    if m >= 0x8000_0000 { m - 0x1_0000_0000 } else { m }
}

/// `x` reduced into `u8` by keeping its low 8 bits, as an `as` cast does.
pub open spec fn wrap_u8(x: int) -> int {
    x % 0x100
}

/// Reducing a value that already fits in `i32` leaves it unchanged.
pub proof fn lemma_wrap_i32_identity(x: int)
    requires
        i32::MIN <= x <= i32::MAX,
    ensures
        wrap_i32(x) == x,
{
}

pub fn to_i32_wrapping(x: i64) -> (r: i32)
    ensures
        r == wrap_i32(x as int),
{
    let t: i64 = x % 0x1_0000_0000;
    let m: i64 = if t < 0 { t + 0x1_0000_0000 } else { t };
    assert(m == (x as int) % 0x1_0000_0000);
    if m >= 0x8000_0000 {
        (m - 0x1_0000_0000) as i32
    } else {
        m as i32
    }
}

pub fn to_u8_wrapping(x: i64) -> (r: u8)
    ensures
        r == wrap_u8(x as int),
{
    let t: i64 = x % 0x100;
    let m: i64 = if t < 0 { t + 0x100 } else { t };
    assert(m == (x as int) % 0x100);
    m as u8
}

/// What an id member reads: a number gives its value reduced into `i32`
/// (0 where it is no `i64`); anything else leaves `fallback`.
pub open spec fn id_or(members: Seq<(String, Json)>, fallback: i32) -> i32 {
    match member(members, "id"@) {
        Some(Json::Number(n)) => wrap_i32(
            match n {
                Some(v) => v as int,
                None => 0,
            },
        ) as i32,
        _ => fallback,
    }
}

/// The id member read as `id_or` says.
pub fn id_member(members: &Vec<(String, Json)>, fallback: i32) -> (r: i32)
    ensures
        r == id_or(members@, fallback),
{
    let key = String::from_str("id");
    match number_member(members, &key) {
        Some(Some(v)) => to_i32_wrapping(v),
        Some(None) => 0,
        None => fallback,
    }
}

} // verus!
