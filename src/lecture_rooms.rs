use vstd::prelude::*;
use crate::errors::{FindError, RequestError};
use crate::json::{Json, member, text_or, id_or, text_member, id_member, lemma_wrap_i32_identity};
use crate::utils::{HttpResponse, reply_array, reply_items, request_failure, find, lower_of, same_lowercase, search_outcome, regex_compiles};

verus! {

/// A lecture room.
#[derive(Debug, Clone)]
pub struct LectureRoom {
    pub id: i32,
    pub name: String,
}

/// What a lecture room holds, with its name as characters.
pub struct LectureRoomView {
    pub id: i32,
    pub name: Seq<char>,
}

impl View for LectureRoom {
    type V = LectureRoomView;

    open spec fn view(&self) -> LectureRoomView {
        LectureRoomView { id: self.id, name: self.name@ }
    }
}

pub open spec fn room_views(s: Seq<LectureRoom>) -> Seq<LectureRoomView> {
    s.map_values(|g: LectureRoom| g@)
}

/// The room that an object's members give: a member that is absent or of
/// the wrong type gives 0 or the empty name.
pub open spec fn next_room(members: Seq<(String, Json)>) -> LectureRoomView {
    LectureRoomView { id: id_or(members, 0), name: text_or(members, "name"@, seq![]) }
}

/// The rooms that a list of JSON items decodes to: one for each object, in
/// order; items that are no objects are skipped.
pub open spec fn decoded_rooms(items: Seq<Json>) -> Seq<LectureRoomView>
    decreases items.len(),
{
    if items.len() == 0 {
        seq![]
    } else {
        match items[0] {
            Json::Object(members) => seq![next_room(members@)] + decoded_rooms(items.drop_first()),
            _ => decoded_rooms(items.drop_first()),
        }
    }
}

impl LectureRoom {
    pub fn new(id: i32, name: String) -> (r: Self)
        ensures
            r.id == id,
            r.name == name,
    {
        Self { id, name }
    }

    /// A copy of the room.
    pub fn duplicate(&self) -> (r: Self)
        ensures
            r == *self,
    {
        Self { id: self.id, name: self.name.clone() }
    }

    /// The room as a JSON object with members `id` and `name`.
    pub fn to_json(&self) -> (r: Json)
        ensures
            r matches Json::Object(m) && room_members_hold(m@, self@),
    {
        let id_key = String::from_str("id");
        let name_key = String::from_str("name");
        proof {
            reveal_strlit("id");
            reveal_strlit("name");
            assert(id_key@.len() != name_key@.len());
        }
        let mut members: Vec<(String, Json)> = Vec::new();
        members.push((id_key, Json::Number(Some(self.id as i64))));
        members.push((name_key, Json::Str(self.name.clone())));
        assert(member(members@.drop_first(), "name"@) == Some(members@[1].1));
        assert(member(members@, "name"@) == Some(members@[1].1));
        Json::Object(members)
    }

    /// The room's name, as it is shown to people.
    pub fn to_string(&self) -> (r: String)
        ensures
            r@ == self.name@,
    {
        self.name.clone()
    }
}

/// Decodes the rooms in a list of JSON objects, in order.
///
/// Each object gives one room of its own. A member that is absent or of the
/// wrong type gives 0 or the empty name, and a number that is no `i64` gives
/// id 0.
pub fn parse_lecture_room_json(vector: &Vec<Json>) -> (r: Vec<LectureRoom>)
    ensures
        room_views(r@) == decoded_rooms(vector@),
{
    let mut result: Vec<LectureRoom> = Vec::new();
    let name_key = String::from_str("name");
    let mut i: usize = 0;
    assert(vector@.subrange(0, vector@.len() as int) =~= vector@);
    assert(room_views(result@) =~= Seq::<LectureRoomView>::empty());
    while i < vector.len()
        invariant
            i <= vector@.len(),
            name_key@ == "name"@,
            room_views(result@) + decoded_rooms(vector@.subrange(i as int, vector@.len() as int))
                == decoded_rooms(vector@),
        decreases vector.len() - i,
    {
        let ghost rest = vector@.subrange(i as int, vector@.len() as int);
        assert(rest.drop_first() =~= vector@.subrange(i + 1, vector@.len() as int));
        if let Json::Object(members) = &vector[i] {
            let id = id_member(members, 0);
            let name = match text_member(members, &name_key) {
                Some(s) => s,
                None => String::new(),
            };
            let ghost before = room_views(result@);
            result.push(LectureRoom::new(id, name.clone()));
            assert(room_views(result@) =~= before + seq![LectureRoomView { id, name: name@ }]);
        }
        i += 1;
    }
    assert(vector@.subrange(vector@.len() as int, vector@.len() as int) =~= Seq::<Json>::empty());
    result
}

/// Whether `members` hold `g`'s id as a number and its name as text.
pub open spec fn room_members_hold(members: Seq<(String, Json)>, g: LectureRoomView) -> bool {
    &&& member(members, "id"@) == Some(Json::Number(Some(g.id as i64)))
    &&& member(members, "name"@) matches Some(Json::Str(s)) && s@ == g.name
}

/// A JSON object that describes a lecture room completely: an integer id within
/// `i32` and a text name.
pub open spec fn well_formed_room(j: Json) -> bool {
    &&& j matches Json::Object(m)
    &&& member(m@, "id"@) matches Some(Json::Number(Some(n))) && i32::MIN <= n <= i32::MAX
    &&& member(m@, "name"@) matches Some(Json::Str(_))
}

/// Decoding a list of well-formed room objects gives one room per object,
/// holding exactly that object's id and name, so encoding the rooms again
/// yields objects with the same id and name members.
pub proof fn lemma_rooms_round_trip(items: Seq<Json>)
    requires
        forall|i: int| 0 <= i < items.len() ==> well_formed_room(#[trigger] items[i]),
    ensures
        decoded_rooms(items).len() == items.len(),
        forall|i: int|
            0 <= i < items.len() ==> (#[trigger] items[i] matches Json::Object(m) && room_members_hold(
                m@,
                decoded_rooms(items)[i],
            )),
    decreases items.len(),
{
    if items.len() > 0 {
        let rest = items.drop_first();
        assert(well_formed_room(items[0]));
        if let Json::Object(m) = items[0] {
            if let Some(Json::Number(Some(n))) = member(m@, "id"@) {
                lemma_wrap_i32_identity(n as int);
            }
            assert forall|i: int| 0 <= i < rest.len() implies well_formed_room(#[trigger] rest[i]) by {
                assert(rest[i] == items[i + 1]);
            }
            lemma_rooms_round_trip(rest);
            assert forall|i: int| 0 <= i < items.len() implies (#[trigger] items[i] matches Json::Object(
                m2,
            ) && room_members_hold(m2@, decoded_rooms(items)[i])) by {
                if i > 0 {
                    assert(items[i] == rest[i - 1]);
                }
            }
        }
    }
}

/// Encoding rooms and decoding the objects gives the same rooms back.
pub fn encode_lecture_rooms(rooms: &Vec<LectureRoom>) -> (r: Vec<Json>)
    ensures
        decoded_rooms(r@) == room_views(rooms@),
{
    let mut r: Vec<Json> = Vec::new();
    let mut i: usize = 0;
    while i < rooms.len()
        invariant
            i <= rooms@.len(),
            r@.len() == i,
            forall|k: int| 0 <= k < i ==> (#[trigger] r@[k] matches Json::Object(m) && room_members_hold(m@, rooms@[k]@)),
        decreases rooms.len() - i,
    {
        r.push(rooms[i].to_json());
        i += 1;
    }
    proof {
        assert forall|k: int| 0 <= k < r@.len() implies well_formed_room(#[trigger] r@[k]) by {
            assert(r@[k] matches Json::Object(m) && room_members_hold(m@, rooms@[k]@));
        }
        lemma_rooms_round_trip(r@);
        let d = decoded_rooms(r@);
        assert forall|k: int| 0 <= k < r@.len() implies d[k] == #[trigger] room_views(rooms@)[k] by {
            assert(r@[k] matches Json::Object(m) && room_members_hold(m@, d[k]));
            assert(r@[k] matches Json::Object(m) && room_members_hold(m@, rooms@[k]@));
        }
        assert(d =~= room_views(rooms@));
    }
    r
}

/// The address that lists all lecture rooms.
pub const LECTURE_ROOMS_URL: &'static str = "https://api.mindenit.tech/auditories";

/// Reads all lecture rooms from the reply to a GET of `LECTURE_ROOMS_URL` (`None` where the
/// request failed); fails as `reply_array` does.
pub fn get_lecture_rooms(reply: Option<HttpResponse>) -> (r: Result<Vec<LectureRoom>, RequestError>)
    ensures
        match reply_items(reply) {
            Some(items) => r matches Ok(v) && room_views(v@) == decoded_rooms(items),
            None => r matches Err(e) && request_failure(reply, e),
        },
{
    match reply_array(reply) {
        Ok(items) => Ok(parse_lecture_room_json(&items)),
        Err(e) => Err(e),
    }
}

/// The rooms whose names `name` finds, in order.
pub open spec fn rooms_matching(rooms: Seq<LectureRoom>, name: Seq<char>) -> Seq<LectureRoom>
    decreases rooms.len(),
{
    if rooms.len() == 0 {
        seq![]
    } else {
        let rest = rooms_matching(rooms.drop_first(), name);
        if search_outcome(name, rooms[0].name@) == Some(true) {
            seq![rooms[0]] + rest
        } else {
            rest
        }
    }
}

/// Finds the rooms whose names `name` matches, as `find` matches.
///
/// Fails with `InvalidRegexString(name)` where there is a lecture room to search and
/// the lower-cased `name` is no regular expression, and with
/// `InvalidLectureRoomName(name)` where no room matches.
pub fn find_lecture_room(name: &str, rooms: &Vec<LectureRoom>) -> (r: Result<Vec<LectureRoom>, FindError>)
    ensures
        rooms@.len() > 0 && !regex_compiles(lower_of(name@)) ==> (r matches Err(
            FindError::InvalidRegexString(s),
        ) && s@ == name@),
        rooms@.len() == 0 || regex_compiles(lower_of(name@)) ==> if rooms_matching(
            rooms@,
            name@,
        ).len() > 0 {
            r matches Ok(v) && v@ == rooms_matching(rooms@, name@)
        } else {
            r matches Err(FindError::InvalidLectureRoomName(s)) && s@ == name@
        },
{
    let mut result: Vec<LectureRoom> = Vec::new();
    let mut i: usize = 0;
    assert(rooms@.subrange(0, rooms@.len() as int) =~= rooms@);
    while i < rooms.len()
        invariant
            i <= rooms@.len(),
            i > 0 ==> regex_compiles(lower_of(name@)),
            result@ + rooms_matching(rooms@.subrange(i as int, rooms@.len() as int), name@)
                == rooms_matching(rooms@, name@),
        decreases rooms.len() - i,
    {
        let ghost rest = rooms@.subrange(i as int, rooms@.len() as int);
        assert(rest.drop_first() =~= rooms@.subrange(i + 1, rooms@.len() as int));
        let found = find(name, rooms[i].name.as_str());
        match found {
            Ok(true) => {
                let ghost before = result@;
                result.push(rooms[i].duplicate());
                assert(result@ =~= before + seq![rooms@[i as int]]);
            },
            Ok(false) => {},
            Err(e) => {
                return Err(e);
            },
        }
        i += 1;
    }
    assert(rooms@.subrange(rooms@.len() as int, rooms@.len() as int) =~= Seq::<LectureRoom>::empty());
    assert(result@ =~= rooms_matching(rooms@, name@));
    if result.len() == 0 {
        Err(FindError::InvalidLectureRoomName(String::from_str(name)))
    } else {
        Ok(result)
    }
}

/// The first room whose name equals `name` once both are lower-cased.
pub open spec fn first_named_room(rooms: Seq<LectureRoom>, name: Seq<char>) -> Option<LectureRoom>
    decreases rooms.len(),
{
    if rooms.len() == 0 {
        None
    } else if lower_of(rooms[0].name@) == lower_of(name) {
        Some(rooms[0])
    } else {
        first_named_room(rooms.drop_first(), name)
    }
}

/// Finds the first room named exactly `name`, ignoring case; fails with
/// `InvalidLectureRoomName(name)` where there is none.
pub fn find_exect_lecture_room(name: &str, rooms: &Vec<LectureRoom>) -> (r: Result<LectureRoom, FindError>)
    ensures
        match first_named_room(rooms@, name@) {
            Some(g) => r == Ok::<LectureRoom, FindError>(g),
            None => r matches Err(FindError::InvalidLectureRoomName(s)) && s@ == name@,
        },
{
    let mut i: usize = 0;
    assert(rooms@.subrange(0, rooms@.len() as int) =~= rooms@);
    while i < rooms.len()
        invariant
            i <= rooms@.len(),
            first_named_room(rooms@, name@) == first_named_room(
                rooms@.subrange(i as int, rooms@.len() as int),
                name@,
            ),
        decreases rooms.len() - i,
    {
        let ghost rest = rooms@.subrange(i as int, rooms@.len() as int);
        assert(rest.drop_first() =~= rooms@.subrange(i + 1, rooms@.len() as int));
        if same_lowercase(name, rooms[i].name.as_str()) {
            return Ok(rooms[i].duplicate());
        }
        i += 1;
    }
    Err(FindError::InvalidLectureRoomName(String::from_str(name)))
}

} // verus!
