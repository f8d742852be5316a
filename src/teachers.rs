use vstd::prelude::*;
use crate::errors::{FindError, RequestError};
use crate::json::{Json, member, text_or, id_or, text_member, id_member, lemma_wrap_i32_identity};
use crate::utils::{HttpResponse, reply_array, reply_items, request_failure, find, lower_of, same_lowercase, search_outcome, regex_compiles};

verus! {

/// A teacher.
#[derive(Debug, Clone)]
pub struct Teacher {
    pub id: i32,
    pub short_name: String,
    pub full_name: String,
}

/// What a teacher holds, with its name as characters.
pub struct TeacherView {
    pub id: i32,
    pub short_name: Seq<char>,
    pub full_name: Seq<char>,
}

impl View for Teacher {
    type V = TeacherView;

    open spec fn view(&self) -> TeacherView {
        TeacherView { id: self.id, short_name: self.short_name@, full_name: self.full_name@ }
    }
}

pub open spec fn teacher_views(s: Seq<Teacher>) -> Seq<TeacherView> {
    s.map_values(|g: Teacher| g@)
}

/// The teacher that an object's members give: a member that is absent or of
/// the wrong type gives 0 or the empty name.
pub open spec fn next_teacher(members: Seq<(String, Json)>) -> TeacherView {
    TeacherView {
        id: id_or(members, 0),
        short_name: text_or(members, "shortName"@, seq![]),
        full_name: text_or(members, "fullName"@, seq![]),
    }
}

/// The teachers that a list of JSON items decodes to: one for each object,
/// in order; items that are no objects are skipped.
pub open spec fn decoded_teachers(items: Seq<Json>) -> Seq<TeacherView>
    decreases items.len(),
{
    if items.len() == 0 {
        seq![]
    } else {
        match items[0] {
            Json::Object(members) => seq![next_teacher(members@)] + decoded_teachers(items.drop_first()),
            _ => decoded_teachers(items.drop_first()),
        }
    }
}

impl Teacher {
    pub fn new(id: i32, short_name: String, full_name: String) -> (r: Self)
        ensures
            r.id == id,
            r.short_name == short_name,
            r.full_name == full_name,
    {
        Self { id, short_name, full_name }
    }

    /// A copy of the teacher.
    pub fn duplicate(&self) -> (r: Self)
        ensures
            r == *self,
    {
        Self {
            id: self.id,
            short_name: self.short_name.clone(),
            full_name: self.full_name.clone(),
        }
    }

    /// The teacher as a JSON object with members `id`, `shortName` and `fullName`.
    pub fn to_json(&self) -> (r: Json)
        ensures
            r matches Json::Object(m) && teacher_members_hold(m@, self@),
    {
        let id_key = String::from_str("id");
        let short_key = String::from_str("shortName");
        let full_key = String::from_str("fullName");
        proof {
            reveal_strlit("id");
            reveal_strlit("shortName");
            reveal_strlit("fullName");
            assert(id_key@.len() != short_key@.len());
            assert(id_key@.len() != full_key@.len());
            assert(short_key@[0] != full_key@[0]);
        }
        let mut members: Vec<(String, Json)> = Vec::new();
        members.push((id_key, Json::Number(Some(self.id as i64))));
        members.push((short_key, Json::Str(self.short_name.clone())));
        members.push((full_key, Json::Str(self.full_name.clone())));
        let ghost tail = members@.drop_first();
        assert(member(tail.drop_first(), "fullName"@) == Some(members@[2].1));
        assert(member(tail, "fullName"@) == Some(members@[2].1));
        assert(member(members@, "fullName"@) == Some(members@[2].1));
        assert(member(tail, "shortName"@) == Some(members@[1].1));
        assert(member(members@, "shortName"@) == Some(members@[1].1));
        Json::Object(members)
    }

    /// The teacher's full name, as it is shown to people.
    pub fn to_string(&self) -> (r: String)
        ensures
            r@ == self.full_name@,
    {
        self.full_name.clone()
    }
}

/// Decodes the teachers in a list of JSON objects, in order.
///
/// Each object gives one teacher of its own. A member that is absent or of
/// the wrong type gives 0 or the empty name, and a number that is no `i64`
/// gives id 0.
pub fn parse_teacher_json(vector: &Vec<Json>) -> (r: Vec<Teacher>)
    ensures
        teacher_views(r@) == decoded_teachers(vector@),
{
    let mut result: Vec<Teacher> = Vec::new();
    let short_key = String::from_str("shortName");
    let full_key = String::from_str("fullName");
    let mut i: usize = 0;
    assert(vector@.subrange(0, vector@.len() as int) =~= vector@);
    assert(teacher_views(result@) =~= Seq::<TeacherView>::empty());
    while i < vector.len()
        invariant
            i <= vector@.len(),
            short_key@ == "shortName"@,
            full_key@ == "fullName"@,
            teacher_views(result@) + decoded_teachers(vector@.subrange(i as int, vector@.len() as int))
                == decoded_teachers(vector@),
        decreases vector.len() - i,
    {
        let ghost rest = vector@.subrange(i as int, vector@.len() as int);
        assert(rest.drop_first() =~= vector@.subrange(i + 1, vector@.len() as int));
        if let Json::Object(members) = &vector[i] {
            let id = id_member(members, 0);
            let short_name = match text_member(members, &short_key) {
                Some(s) => s,
                None => String::new(),
            };
            let full_name = match text_member(members, &full_key) {
                Some(s) => s,
                None => String::new(),
            };
            let ghost before = teacher_views(result@);
            result.push(Teacher::new(id, short_name.clone(), full_name.clone()));
            assert(teacher_views(result@) =~= before + seq![TeacherView { id, short_name: short_name@, full_name: full_name@ }]);
        }
        i += 1;
    }
    assert(vector@.subrange(vector@.len() as int, vector@.len() as int) =~= Seq::<Json>::empty());
    result
}

/// Whether `members` hold `g`'s id as a number and its names as text.
pub open spec fn teacher_members_hold(members: Seq<(String, Json)>, g: TeacherView) -> bool {
    &&& member(members, "id"@) == Some(Json::Number(Some(g.id as i64)))
    &&& member(members, "shortName"@) matches Some(Json::Str(s)) && s@ == g.short_name
    &&& member(members, "fullName"@) matches Some(Json::Str(s)) && s@ == g.full_name
}

/// A JSON object that describes a teacher completely: an integer id within
/// `i32` and text names.
pub open spec fn well_formed_teacher(j: Json) -> bool {
    &&& j matches Json::Object(m)
    &&& member(m@, "id"@) matches Some(Json::Number(Some(n))) && i32::MIN <= n <= i32::MAX
    &&& member(m@, "shortName"@) matches Some(Json::Str(_))
    &&& member(m@, "fullName"@) matches Some(Json::Str(_))
}

/// Decoding a list of well-formed teacher objects gives one teacher per object,
/// holding exactly that object's id and names, so encoding the teachers again
/// yields objects with the same id and name members.
pub proof fn lemma_teachers_round_trip(items: Seq<Json>)
    requires
        forall|i: int| 0 <= i < items.len() ==> well_formed_teacher(#[trigger] items[i]),
    ensures
        decoded_teachers(items).len() == items.len(),
        forall|i: int|
            0 <= i < items.len() ==> (#[trigger] items[i] matches Json::Object(m) && teacher_members_hold(
                m@,
                decoded_teachers(items)[i],
            )),
    decreases items.len(),
{
    if items.len() > 0 {
        let rest = items.drop_first();
        assert(well_formed_teacher(items[0]));
        if let Json::Object(m) = items[0] {
            if let Some(Json::Number(Some(n))) = member(m@, "id"@) {
                lemma_wrap_i32_identity(n as int);
            }
            assert forall|i: int| 0 <= i < rest.len() implies well_formed_teacher(#[trigger] rest[i]) by {
                assert(rest[i] == items[i + 1]);
            }
            lemma_teachers_round_trip(rest);
            assert forall|i: int| 0 <= i < items.len() implies (#[trigger] items[i] matches Json::Object(
                m2,
            ) && teacher_members_hold(m2@, decoded_teachers(items)[i])) by {
                if i > 0 {
                    assert(items[i] == rest[i - 1]);
                }
            }
        }
    }
}

/// Encoding teachers and decoding the objects gives the same teachers back.
pub fn encode_teachers(teachers: &Vec<Teacher>) -> (r: Vec<Json>)
    ensures
        decoded_teachers(r@) == teacher_views(teachers@),
{
    let mut r: Vec<Json> = Vec::new();
    let mut i: usize = 0;
    while i < teachers.len()
        invariant
            i <= teachers@.len(),
            r@.len() == i,
            forall|k: int| 0 <= k < i ==> (#[trigger] r@[k] matches Json::Object(m) && teacher_members_hold(m@, teachers@[k]@)),
        decreases teachers.len() - i,
    {
        r.push(teachers[i].to_json());
        i += 1;
    }
    proof {
        assert forall|k: int| 0 <= k < r@.len() implies well_formed_teacher(#[trigger] r@[k]) by {
            assert(r@[k] matches Json::Object(m) && teacher_members_hold(m@, teachers@[k]@));
        }
        lemma_teachers_round_trip(r@);
        let d = decoded_teachers(r@);
        assert forall|k: int| 0 <= k < r@.len() implies d[k] == #[trigger] teacher_views(teachers@)[k] by {
            assert(r@[k] matches Json::Object(m) && teacher_members_hold(m@, d[k]));
            assert(r@[k] matches Json::Object(m) && teacher_members_hold(m@, teachers@[k]@));
        }
        assert(d =~= teacher_views(teachers@));
    }
    r
}

/// The address that lists all teachers.
pub const TEACHERS_URL: &'static str = "https://api.mindenit.tech/teachers";

/// Reads all teachers from the reply to a GET of `TEACHERS_URL` (`None` where the
/// request failed); fails as `reply_array` does.
pub fn get_teachers(reply: Option<HttpResponse>) -> (r: Result<Vec<Teacher>, RequestError>)
    ensures
        match reply_items(reply) {
            Some(items) => r matches Ok(v) && teacher_views(v@) == decoded_teachers(items),
            None => r matches Err(e) && request_failure(reply, e),
        },
{
    match reply_array(reply) {
        Ok(items) => Ok(parse_teacher_json(&items)),
        Err(e) => Err(e),
    }
}

/// The teachers whose full names `name` finds, in order.
pub open spec fn teachers_matching(teachers: Seq<Teacher>, name: Seq<char>) -> Seq<Teacher>
    decreases teachers.len(),
{
    if teachers.len() == 0 {
        seq![]
    } else {
        let rest = teachers_matching(teachers.drop_first(), name);
        if search_outcome(name, teachers[0].full_name@) == Some(true) {
            seq![teachers[0]] + rest
        } else {
            rest
        }
    }
}

/// Finds the teachers whose full names `name` matches, as `find` matches.
///
/// Fails with `InvalidRegexString(name)` where there is a teacher to search and
/// the lower-cased `name` is no regular expression, and with
/// `InvalidTeacherName(name)` where no teacher matches.
pub fn find_teacher(name: &str, teachers: &Vec<Teacher>) -> (r: Result<Vec<Teacher>, FindError>)
    ensures
        teachers@.len() > 0 && !regex_compiles(lower_of(name@)) ==> (r matches Err(
            FindError::InvalidRegexString(s),
        ) && s@ == name@),
        teachers@.len() == 0 || regex_compiles(lower_of(name@)) ==> if teachers_matching(
            teachers@,
            name@,
        ).len() > 0 {
            r matches Ok(v) && v@ == teachers_matching(teachers@, name@)
        } else {
            r matches Err(FindError::InvalidTeacherName(s)) && s@ == name@
        },
{
    let mut result: Vec<Teacher> = Vec::new();
    let mut i: usize = 0;
    assert(teachers@.subrange(0, teachers@.len() as int) =~= teachers@);
    while i < teachers.len()
        invariant
            i <= teachers@.len(),
            i > 0 ==> regex_compiles(lower_of(name@)),
            result@ + teachers_matching(teachers@.subrange(i as int, teachers@.len() as int), name@)
                == teachers_matching(teachers@, name@),
        decreases teachers.len() - i,
    {
        let ghost rest = teachers@.subrange(i as int, teachers@.len() as int);
        assert(rest.drop_first() =~= teachers@.subrange(i + 1, teachers@.len() as int));
        let found = find(name, teachers[i].full_name.as_str());
        match found {
            Ok(true) => {
                let ghost before = result@;
                result.push(teachers[i].duplicate());
                assert(result@ =~= before + seq![teachers@[i as int]]);
            },
            Ok(false) => {},
            Err(e) => {
                return Err(e);
            },
        }
        i += 1;
    }
    assert(teachers@.subrange(teachers@.len() as int, teachers@.len() as int) =~= Seq::<Teacher>::empty());
    assert(result@ =~= teachers_matching(teachers@, name@));
    if result.len() == 0 {
        Err(FindError::InvalidTeacherName(String::from_str(name)))
    } else {
        Ok(result)
    }
}

/// The first teacher whose short name equals `name` once both are lower-cased.
pub open spec fn first_named_teacher(teachers: Seq<Teacher>, name: Seq<char>) -> Option<Teacher>
    decreases teachers.len(),
{
    if teachers.len() == 0 {
        None
    } else if lower_of(teachers[0].short_name@) == lower_of(name) {
        Some(teachers[0])
    } else {
        first_named_teacher(teachers.drop_first(), name)
    }
}

/// Finds the first teacher whose short name is exactly `name`, ignoring case;
/// fails with `InvalidTeacherName(name)` where there is none.
pub fn find_exect_teacher(name: &str, teachers: &Vec<Teacher>) -> (r: Result<Teacher, FindError>)
    ensures
        match first_named_teacher(teachers@, name@) {
            Some(g) => r == Ok::<Teacher, FindError>(g),
            None => r matches Err(FindError::InvalidTeacherName(s)) && s@ == name@,
        },
{
    let mut i: usize = 0;
    assert(teachers@.subrange(0, teachers@.len() as int) =~= teachers@);
    while i < teachers.len()
        invariant
            i <= teachers@.len(),
            first_named_teacher(teachers@, name@) == first_named_teacher(
                teachers@.subrange(i as int, teachers@.len() as int),
                name@,
            ),
        decreases teachers.len() - i,
    {
        let ghost rest = teachers@.subrange(i as int, teachers@.len() as int);
        assert(rest.drop_first() =~= teachers@.subrange(i + 1, teachers@.len() as int));
        if same_lowercase(name, teachers[i].short_name.as_str()) {
            return Ok(teachers[i].duplicate());
        }
        i += 1;
    }
    Err(FindError::InvalidTeacherName(String::from_str(name)))
}

} // verus!
