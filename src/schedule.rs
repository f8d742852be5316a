use vstd::prelude::*;
use crate::errors::{ParseError, ScheduleError};
use crate::groups::{Group, GroupView, group_views, decoded_groups, parse_group_json};
use crate::json::{Json, member, find_member, text_or, id_or, id_member, text_member, number_member, wrap_u8, to_u8_wrapping};
use crate::lecture_rooms::LectureRoom;
use crate::period::{Period, ten_digit_timestamp, period_from_timestamps};
use crate::teachers::{Teacher, TeacherView, teacher_views, decoded_teachers, parse_teacher_json};
use crate::utils::{HttpResponse, reply_array, reply_items, request_failure, int_text, decimal_text};

verus! {

/// The subject that a lecture teaches.
#[derive(Debug, Clone)]
pub struct Subject {
    pub brief: String,
    pub id: i32,
    pub title: String,
}

pub struct SubjectView {
    pub brief: Seq<char>,
    pub id: i32,
    pub title: Seq<char>,
}

impl View for Subject {
    type V = SubjectView;

    open spec fn view(&self) -> SubjectView {
        SubjectView { brief: self.brief@, id: self.id, title: self.title@ }
    }
}

impl Subject {
    pub fn new(brief: String, id: i32, title: String) -> (r: Self)
        ensures
            r.brief == brief,
            r.id == id,
            r.title == title,
    {
        Self { brief, id, title }
    }

    /// A copy of the subject.
    pub fn duplicate(&self) -> (r: Self)
        ensures
            r == *self,
    {
        Self { brief: self.brief.clone(), id: self.id, title: self.title.clone() }
    }
}

impl Default for Subject {
    /// The subject with empty brief and title and id 0.
    fn default() -> (r: Self)
        ensures
            r@ == (SubjectView { brief: seq![], id: 0, title: seq![] }),
    {
        Self { brief: String::new(), id: 0, title: String::new() }
    }
}

/// The subject that an object's members give: a member that is absent or
/// of the wrong type leaves the empty text or 0.
pub open spec fn subject_of(members: Seq<(String, Json)>) -> SubjectView {
    SubjectView {
        brief: text_or(members, "brief"@, seq![]),
        id: id_or(members, 0),
        title: text_or(members, "title"@, seq![]),
    }
}

/// Decodes a subject from the members of a JSON object.
pub fn parse_subject_json(obj: &Vec<(String, Json)>) -> (r: Subject)
    ensures
        r@ == subject_of(obj@),
{
    let brief = match text_member(obj, &String::from_str("brief")) {
        Some(s) => s,
        None => String::new(),
    };
    let id = id_member(obj, 0);
    let title = match text_member(obj, &String::from_str("title")) {
        Some(s) => s,
        None => String::new(),
    };
    Subject::new(brief, id, title)
}

/// Whose schedule a query asks for.
#[derive(Debug, Clone)]
pub enum Request {
    Group(Group),
    Teacher(Teacher),
    LectureRoom(LectureRoom),
}

/// One scheduled class.
#[derive(Debug, Clone)]
pub struct Lecture {
    pub lecture_room: String,
    pub period: Period,
    pub number_pair: u8,
    pub lecture_type: String,
    pub teachers: Vec<Teacher>,
    pub groups: Vec<Group>,
    pub subject: Subject,
}

impl Lecture {
    pub fn new(
        lecture_room: String,
        period: Period,
        number_pair: u8,
        lecture_type: String,
        teachers: Vec<Teacher>,
        groups: Vec<Group>,
        subject: Subject,
    ) -> (r: Self)
        ensures
            r.lecture_room == lecture_room,
            r.period == period,
            r.number_pair == number_pair,
            r.lecture_type == lecture_type,
            r.teachers == teachers,
            r.groups == groups,
            r.subject == subject,
    {
        Self { lecture_room, period, number_pair, lecture_type, teachers, groups, subject }
    }
}

/// What one object of a schedule says of a lecture; `start` and `end` are
/// the Unix timestamps its period is read from.
pub struct LectureFields {
    pub room: Seq<char>,
    pub start: i64,
    pub end: i64,
    pub pair: u8,
    pub kind: Seq<char>,
    pub teachers: Seq<TeacherView>,
    pub groups: Seq<GroupView>,
    pub subject: SubjectView,
}

/// What a lecture's integer member reads: its value where it is a number
/// that fits in `i64`, else 0.
pub open spec fn int_or_zero(members: Seq<(String, Json)>, key: Seq<char>) -> i64 {
    match member(members, key) {
        Some(Json::Number(Some(v))) => v,
        _ => 0,
    }
}

/// The fields that an object's members give: a member that is absent or of
/// the wrong type gives the empty text or list, 0, or the default subject;
/// the pair number keeps the low 8 bits of its value.
pub open spec fn next_fields(members: Seq<(String, Json)>) -> LectureFields {
    LectureFields {
        room: text_or(members, "auditory"@, seq![]),
        start: int_or_zero(members, "startTime"@),
        end: int_or_zero(members, "endTime"@),
        pair: match member(members, "numberPair"@) {
            Some(Json::Number(Some(v))) => wrap_u8(v as int) as u8,
            _ => 0,
        },
        kind: text_or(members, "type"@, seq![]),
        teachers: match member(members, "teachers"@) {
            Some(Json::Array(v)) => decoded_teachers(v@),
            _ => seq![],
        },
        groups: match member(members, "groups"@) {
            Some(Json::Array(v)) => decoded_groups(v@),
            _ => seq![],
        },
        subject: match member(members, "subject"@) {
            Some(Json::Object(m)) => subject_of(m@),
            _ => SubjectView { brief: seq![], id: 0, title: seq![] },
        },
    }
}

/// The fields of the lectures that a schedule's items describe: one for each
/// object, in order; items that are no objects are skipped.
pub open spec fn decoded_lectures(items: Seq<Json>) -> Seq<LectureFields>
    decreases items.len(),
{
    if items.len() == 0 {
        seq![]
    } else {
        match items[0] {
            Json::Object(members) => seq![next_fields(members@)] + decoded_lectures(items.drop_first()),
            _ => decoded_lectures(items.drop_first()),
        }
    }
}

/// Whether lecture `l` holds fields `f`. Its period is the one that
/// `Period::from_timestamp` gives for `f.start` and `f.end`; where both have
/// ten digits, it runs exactly between them.
pub open spec fn lecture_holds(l: Lecture, f: LectureFields) -> bool {
    &&& l.lecture_room@ == f.room
    &&& l.number_pair == f.pair
    &&& l.lecture_type@ == f.kind
    &&& teacher_views(l.teachers@) == f.teachers
    &&& group_views(l.groups@) == f.groups
    &&& l.subject@ == f.subject
    &&& l.period.wf()
    &&& period_from_timestamps(f.start, f.end, Ok(l.period))
    &&& ten_digit_timestamp(f.start as int) && ten_digit_timestamp(f.end as int) ==> {
        &&& l.period.start_time.timestamp == f.start && l.period.start_time.nanos == 0
        &&& l.period.end_time.timestamp == f.end && l.period.end_time.nanos == 0
    }
}

/// Whether `v` holds one lecture for each of `fs`, in order.
pub open spec fn lectures_hold(v: Seq<Lecture>, fs: Seq<LectureFields>) -> bool {
    &&& v.len() == fs.len()
    &&& forall|i: int| 0 <= i < v.len() ==> lecture_holds(#[trigger] v[i], fs[i])
}

/// Whether `e` is the error that `Period::from_timestamp` gives for the
/// timestamps of `f`, which are then not both of ten digits.
pub open spec fn timestamp_error(e: ParseError, f: LectureFields) -> bool {
    &&& period_from_timestamps(f.start, f.end, Err(e))
    &&& !(ten_digit_timestamp(f.start as int) && ten_digit_timestamp(f.end as int))
}

/// Decodes the lectures of a schedule, one for each object, in order.
///
/// A member that is absent or of the wrong type gives the empty text or list,
/// 0, or the default subject. The period is read from the `startTime` and
/// `endTime` timestamps as `Period::from_timestamp` reads them; where one
/// cannot be read the decoding fails with its `InvalidTimestampProvided`, so
/// lectures whose timestamps have ten digits always decode.
pub fn parse_lecture_json(vector: &Vec<Json>) -> (r: Result<Vec<Lecture>, ParseError>)
    ensures
        match r {
            Ok(v) => lectures_hold(v@, decoded_lectures(vector@)),
            Err(e) => exists|k: int|
                0 <= k < decoded_lectures(vector@).len() && timestamp_error(
                    e,
                    #[trigger] decoded_lectures(vector@)[k],
                ),
        },
{
    let mut result: Vec<Lecture> = Vec::new();
    let ghost mut done: Seq<LectureFields> = seq![];
    let room_key = String::from_str("auditory");
    let start_key = String::from_str("startTime");
    let end_key = String::from_str("endTime");
    let pair_key = String::from_str("numberPair");
    let kind_key = String::from_str("type");
    let teachers_key = String::from_str("teachers");
    let groups_key = String::from_str("groups");
    let subject_key = String::from_str("subject");
    let mut i: usize = 0;
    assert(vector@.subrange(0, vector@.len() as int) =~= vector@);
    assert(done + decoded_lectures(vector@) =~= decoded_lectures(vector@));
    while i < vector.len()
        invariant
            i <= vector@.len(),
            room_key@ == "auditory"@,
            start_key@ == "startTime"@,
            end_key@ == "endTime"@,
            pair_key@ == "numberPair"@,
            kind_key@ == "type"@,
            teachers_key@ == "teachers"@,
            groups_key@ == "groups"@,
            subject_key@ == "subject"@,
            lectures_hold(result@, done),
            done + decoded_lectures(vector@.subrange(i as int, vector@.len() as int)) == decoded_lectures(
                vector@,
            ),
        decreases vector.len() - i,
    {
        let ghost rest = vector@.subrange(i as int, vector@.len() as int);
        assert(rest.drop_first() =~= vector@.subrange(i + 1, vector@.len() as int));
        if let Json::Object(members) = &vector[i] {
            let room = match text_member(members, &room_key) {
                Some(s) => s,
                None => String::new(),
            };
            let start = match number_member(members, &start_key) {
                Some(Some(v)) => v,
                _ => 0,
            };
            let end = match number_member(members, &end_key) {
                Some(Some(v)) => v,
                _ => 0,
            };
            let pair = match number_member(members, &pair_key) {
                Some(Some(v)) => to_u8_wrapping(v),
                _ => 0,
            };
            let kind = match text_member(members, &kind_key) {
                Some(s) => s,
                None => String::new(),
            };
            let teachers = match find_member(members, &teachers_key) {
                Some(j) => match &members[j].1 {
                    Json::Array(v) => parse_teacher_json(v),
                    _ => Vec::new(),
                },
                None => Vec::new(),
            };
            let groups = match find_member(members, &groups_key) {
                Some(j) => match &members[j].1 {
                    Json::Array(v) => parse_group_json(v),
                    _ => Vec::new(),
                },
                None => Vec::new(),
            };
            let subject = match find_member(members, &subject_key) {
                Some(j) => match &members[j].1 {
                    Json::Object(m) => parse_subject_json(m),
                    _ => Subject::default(),
                },
                None => Subject::default(),
            };
            proof {
                if teachers@.len() == 0 {
                    assert(teacher_views(teachers@) =~= Seq::<TeacherView>::empty());
                }
                if groups@.len() == 0 {
                    assert(group_views(groups@) =~= Seq::<GroupView>::empty());
                }
            }
            let ghost fields = LectureFields {
                room: room@,
                start,
                end,
                pair,
                kind: kind@,
                teachers: teacher_views(teachers@),
                groups: group_views(groups@),
                subject: subject@,
            };
            proof {
                assert(fields == next_fields(members@));
                assert(decoded_lectures(vector@)[done.len() as int] == fields);
            }
            let period = match Period::from_timestamp(start, end) {
                Ok(p) => p,
                Err(e) => {
                    assert(timestamp_error(e, decoded_lectures(vector@)[done.len() as int]));
                    return Err(e);
                },
            };
            let lecture = Lecture::new(room, period, pair, kind, teachers, groups, subject);
            assert(lecture_holds(lecture, fields));
            let ghost before = result@;
            result.push(lecture);
            proof {
                done = done.push(fields);
                assert forall|k: int| 0 <= k < result@.len() implies lecture_holds(
                    #[trigger] result@[k],
                    done[k],
                ) by {
                    if k < before.len() {
                        assert(result@[k] == before[k]);
                    }
                }
                assert(done + decoded_lectures(rest.drop_first()) =~= (done.drop_last() + seq![fields])
                    + decoded_lectures(rest.drop_first()));
            }
        }
        i += 1;
    }
    assert(vector@.subrange(vector@.len() as int, vector@.len() as int) =~= Seq::<Json>::empty());
    assert(done =~= decoded_lectures(vector@));
    Ok(result)
}

/// The path word and the id of whose schedule `request` asks for.
pub open spec fn request_target(request: Request) -> (Seq<char>, i32) {
    match request {
        Request::Group(g) => ("groups"@, g.id),
        Request::Teacher(t) => ("teachers"@, t.id),
        Request::LectureRoom(l) => ("auditories"@, l.id),
    }
}

/// The address of the schedule that `request` asks for over `period`, with
/// both ends as Unix timestamps in seconds.
pub open spec fn schedule_address(request: Request, period: Period) -> Seq<char> {
    "https://api.mindenit.tech/schedule/"@ + request_target(request).0 + "/"@ + decimal_text(
        request_target(request).1 as int,
    ) + "?start="@ + decimal_text(period.start_time.timestamp as int) + "&end="@ + decimal_text(
        period.end_time.timestamp as int,
    )
}

/// The address to GET for the schedule that `request` asks for over `period`.
pub fn schedule_url(request: &Request, period: &Period) -> (r: String)
    ensures
        r@ == schedule_address(*request, *period),
{
    let (kind, id) = match request {
        Request::Group(g) => ("groups", g.id),
        Request::Teacher(t) => ("teachers", t.id),
        Request::LectureRoom(l) => ("auditories", l.id),
    };
    let mut url = String::from_str("https://api.mindenit.tech/schedule/");
    url.append(kind);
    url.append("/");
    url.append(int_text(id as i64).as_str());
    url.append("?start=");
    url.append(int_text(period.start_time.timestamp).as_str());
    url.append("&end=");
    url.append(int_text(period.end_time.timestamp).as_str());
    url
}

/// Reads the lectures of a schedule from the reply to a GET of
/// `schedule_url` (`None` where the request failed).
///
/// Fails with `ScheduleError::Request` as `reply_array` does, and with
/// `ScheduleError::Parse` where a lecture's timestamps cannot be read.
pub fn get_schedule(reply: Option<HttpResponse>) -> (r: Result<Vec<Lecture>, ScheduleError>)
    ensures
        match reply_items(reply) {
            Some(items) => match r {
                Ok(v) => lectures_hold(v@, decoded_lectures(items)),
                Err(e) => e matches ScheduleError::Parse(p) && exists|k: int|
                    0 <= k < decoded_lectures(items).len() && timestamp_error(
                        p,
                        #[trigger] decoded_lectures(items)[k],
                    ),
            },
            None => r matches Err(ScheduleError::Request(e)) && request_failure(reply, e),
        },
{
    match reply_array(reply) {
        Ok(items) => match parse_lecture_json(&items) {
            Ok(v) => Ok(v),
            Err(e) => Err(ScheduleError::Parse(e)),
        },
        Err(e) => Err(ScheduleError::Request(e)),
    }
}

} // verus!
