use nure_tools::errors::{FindError, ParseError, RequestError, ScheduleError};
use nure_tools::groups::{get_groups, Group};
use nure_tools::json::Json;
use nure_tools::lecture_rooms::{get_lecture_rooms, LectureRoom};
use nure_tools::period::{Moment, Period};
use nure_tools::schedule::{get_schedule, parse_lecture_json, parse_subject_json, schedule_url, Request, Subject};
use nure_tools::teachers::{get_teachers, Teacher};
use nure_tools::utils::{find, get_wrapper, int_text, match_outcome, reply_array, same_lowercase, HttpResponse};

fn reply(status: u16, body: &str) -> Option<HttpResponse> {
    Some(HttpResponse { status, body: body.as_bytes().to_vec() })
}

#[test]
fn find_ignores_case_both_ways() {
    assert_eq!(find("ПІ", "пі-23"), Ok(true));
    assert_eq!(find("пі", "ПІ-23"), Ok(true));
    assert_eq!(find("кн", "ПІ-23"), Ok(false));
}

#[test]
fn find_rejects_an_unterminated_group() {
    assert_eq!(find("(", "пі-23"), Err(FindError::InvalidRegexString("(".to_string())));
}

#[test]
fn find_keeps_regular_expression_meaning() {
    assert_eq!(find("п.-23", "ПІ-23"), Ok(true));
    assert_eq!(find("^23", "ПІ-23"), Ok(false));
}

#[test]
fn match_outcome_maps_each_case() {
    assert_eq!(match_outcome(Some(true), "x"), Ok(true));
    assert_eq!(match_outcome(Some(false), "x"), Ok(false));
    assert_eq!(match_outcome(None, "[x"), Err(FindError::InvalidRegexString("[x".to_string())));
}

#[test]
fn same_lowercase_folds_cyrillic() {
    assert!(same_lowercase("ПЗПІ-23", "пзпі-23"));
    assert!(same_lowercase("ФІЛІЯ", "філія"));
    assert!(!same_lowercase("ФІЛІЯ", "філ"));
}

#[test]
fn int_text_writes_base_ten() {
    assert_eq!(int_text(1704146400), "1704146400");
    assert_eq!(int_text(-42), "-42");
    assert_eq!(int_text(0), "0");
    assert_eq!(int_text(i64::MIN), "-9223372036854775808");
}

#[test]
fn failed_request_is_get_failed() {
    assert!(matches!(get_wrapper(None), Err(RequestError::GetFailed)));
}

#[test]
fn status_404_is_bad_response() {
    match get_wrapper(reply(404, "nothing")) {
        Err(RequestError::BadResponse(reason, code)) => {
            assert_eq!(reason, "Not Found");
            assert_eq!(code, 404);
        },
        _ => panic!("expected BadResponse"),
    }
}

#[test]
fn unknown_status_has_empty_reason() {
    assert_eq!(
        get_wrapper(reply(42, "")).map(|_| ()),
        Err(RequestError::BadResponse(String::new(), 42))
    );
}

#[test]
fn body_that_is_not_json_is_not_json() {
    assert!(matches!(get_wrapper(reply(200, "<html>")), Err(RequestError::NotJson)));
}

#[test]
fn json_body_is_decoded() {
    match get_wrapper(reply(200, r#"{"a": [1, true, null, "x", -2.5]}"#)) {
        Ok(Json::Object(m)) => {
            assert_eq!(m.len(), 1);
            assert_eq!(m[0].0, "a");
            match &m[0].1 {
                Json::Array(v) => {
                    assert!(matches!(v[0], Json::Number(Some(1))));
                    assert!(matches!(v[1], Json::Bool(true)));
                    assert!(matches!(v[2], Json::Null));
                    assert!(matches!(&v[3], Json::Str(s) if s == "x"));
                    assert!(matches!(v[4], Json::Number(None)));
                },
                _ => panic!("expected an array"),
            }
        },
        _ => panic!("expected an object"),
    }
}

#[test]
fn non_array_reply_is_invalid_return() {
    assert!(matches!(reply_array(reply(200, r#"{"id": 1}"#)), Err(RequestError::InvalidReturn)));
    assert!(matches!(get_groups(reply(200, "7")), Err(RequestError::InvalidReturn)));
}

#[test]
fn lists_are_read_from_replies() {
    let g = get_groups(reply(200, r#"[{"id": 5, "name": "ПІ-23-1"}]"#)).unwrap();
    assert_eq!((g[0].id, g[0].name.as_str()), (5, "ПІ-23-1"));
    let t = get_teachers(reply(200, r#"[{"id": 6, "shortName": "A", "fullName": "B"}]"#)).unwrap();
    assert_eq!(t[0].full_name, "B");
    let r = get_lecture_rooms(reply(200, r#"[{"id": 7, "name": "287"}]"#)).unwrap();
    assert_eq!(r[0].name, "287");
    assert!(matches!(get_teachers(reply(500, "")), Err(RequestError::BadResponse(_, 500))));
}

#[test]
fn truncated_json_is_not_json() {
    assert!(matches!(get_wrapper(reply(200, "[1, 2")), Err(RequestError::NotJson)));
    assert!(matches!(get_wrapper(reply(200, "")), Err(RequestError::NotJson)));
}

fn kyiv(m: &Moment) -> String {
    let t = chrono::DateTime::from_timestamp(m.timestamp, m.nanos).unwrap();
    t.with_timezone(&chrono_tz::Europe::Kiev).format("%Y-%m-%dT%H:%M:%S%.9f").to_string()
}

#[test]
fn from_string_reads_two_dates() {
    let p = Period::from_string("2024-01-02", "2024-01-03").unwrap();
    assert!((p.start_time.timestamp, p.start_time.nanos) < (p.end_time.timestamp, p.end_time.nanos));
    assert!(kyiv(&p.start_time).starts_with("2024-01-02"));
    assert_eq!(p.start_time.offset, 7200);
    assert_eq!(p.end_time.offset, 7200);
}

#[test]
fn from_string_reads_loose_forms() {
    let p = Period::from_string("2024-01-02T10:00:00Z", "January 3, 2024").unwrap();
    assert_eq!(p.start_time.timestamp, 1704189600);
    assert!(kyiv(&p.end_time).starts_with("2024-01-03"));
}

#[test]
fn from_string_names_the_unreadable_text() {
    assert_eq!(
        Period::from_string("not a date", "2024-01-03").map(|_| ()),
        Err(ParseError::InvalidStringProvided("not a date".to_string()))
    );
    assert_eq!(
        Period::from_string("2024-01-02", "later").map(|_| ()),
        Err(ParseError::InvalidStringProvided("later".to_string()))
    );
}

#[test]
fn from_timestamp_reads_seconds() {
    let p = Period::from_timestamp(1704146400, 1704232800).unwrap();
    assert_eq!(p.end_time.timestamp - p.start_time.timestamp, 86400);
    assert_eq!(p.start_time.timestamp, 1704146400);
    assert_eq!(kyiv(&p.start_time), "2024-01-02T00:00:00.000000000");
}

#[test]
fn from_readings_takes_each_case() {
    let p = Period::from_readings(Some((60, 5)), Some((120, 2_000_000_000)), "a".to_string(), "b".to_string(), false)
        .unwrap();
    assert_eq!((p.start_time.timestamp, p.start_time.nanos, p.start_time.offset), (60, 5, 10800));
    assert_eq!((p.end_time.timestamp, p.end_time.nanos), (120, 999_999_999));
    assert_eq!(
        Period::from_readings(None, None, "a".to_string(), "b".to_string(), true).map(|_| ()),
        Err(ParseError::InvalidTimestampProvided("a".to_string()))
    );
    assert_eq!(
        Period::from_readings(Some((0, 0)), Some((9_000_000_000_000, 0)), "a".to_string(), "b".to_string(), false)
            .map(|_| ()),
        Err(ParseError::InvalidStringProvided("b".to_string()))
    );
}

#[test]
fn empty_schedule_decodes() {
    assert_eq!(parse_lecture_json(&Vec::new()).map(|v| v.len()), Ok(0));
    assert_eq!(get_schedule(reply(200, "[1, 2]")).map(|v| v.len()), Ok(0));
}

#[test]
fn from_timestamp_names_the_unreadable_timestamp() {
    assert_eq!(
        Period::from_timestamp(-5, 1704232800).map(|_| ()),
        Err(ParseError::InvalidTimestampProvided("-5".to_string()))
    );
}

#[test]
fn day_from_spans_the_whole_local_day() {
    let p = Period::day_from("2023-01-02").unwrap();
    assert_eq!(kyiv(&p.start_time), "2023-01-02T00:00:00.000000000");
    assert_eq!(kyiv(&p.end_time), "2023-01-02T23:59:59.999000000");
    assert_eq!(
        Period::day_from("yesterday-ish").map(|_| ()),
        Err(ParseError::InvalidStringProvided("yesterday-ish".to_string()))
    );
}

#[test]
fn day_from_on_a_summer_day() {
    let p = Period::day_from("2023-07-10").unwrap();
    assert_eq!(p.start_time.offset, 10800);
    assert_eq!(kyiv(&p.start_time), "2023-07-10T00:00:00.000000000");
    assert_eq!(p.end_time.timestamp - p.start_time.timestamp, 86399);
}

#[test]
fn day_from_where_midnight_is_skipped() {
    // On 1981-04-01 Kyiv's clocks went from 00:00 straight to 01:00.
    let p = Period::day_from("1981-04-01").unwrap();
    assert_eq!(kyiv(&p.start_time), "1981-04-01T01:00:00.000000000");
    assert_eq!(kyiv(&p.end_time), "1981-04-01T23:59:59.999000000");
}

#[test]
fn week_from_spans_monday_to_sunday() {
    let p = Period::week_from("2023-01-04").unwrap();
    assert_eq!(kyiv(&p.start_time), "2023-01-02T00:00:00.000000000");
    assert_eq!(kyiv(&p.end_time), "2023-01-08T23:59:59.999000000");
    assert_eq!(
        Period::week_from("").map(|_| ()),
        Err(ParseError::InvalidStringProvided(String::new()))
    );
}

#[test]
fn this_week_holds_now_and_spans_seven_days() {
    let before = chrono::Utc::now().timestamp();
    let p = Period::this_week();
    let after = chrono::Utc::now().timestamp();
    assert!(p.start_time.timestamp <= before);
    assert!(after <= p.end_time.timestamp);
    let span = p.end_time.timestamp - p.start_time.timestamp + 1;
    assert!((span - 7 * 86400).abs() <= 3600);
    assert!(kyiv(&p.start_time).ends_with("T00:00:00.000000000"));
    assert!(kyiv(&p.end_time).ends_with("T23:59:59.999000000"));
}

#[test]
fn day_periods_hold_their_day() {
    let now = chrono::Utc::now().timestamp();
    let today = Period::this_day();
    assert!(today.start_time.timestamp <= now && now <= today.end_time.timestamp + 1);
    let rest = Period::now();
    assert!(rest.start_time.timestamp >= now - 1);
    assert_eq!(rest.end_time.timestamp, today.end_time.timestamp);
    let tomorrow = Period::next_day();
    assert_eq!(tomorrow.start_time.timestamp, today.end_time.timestamp + 1);
    let next = Period::next_week();
    assert_eq!(next.start_time.timestamp, Period::this_week().end_time.timestamp + 1);
}

#[test]
fn period_writes_both_ends() {
    let p = Period::from_timestamp(1704146400, 1704232800).unwrap();
    assert_eq!(p.to_string(), "start_time: 2024-01-02 00:00:00 EET, end_time: 2024-01-03 00:00:00 EET");
}

#[test]
fn schedule_url_names_kind_id_and_ends() {
    let p = Period::from_timestamp(1704146400, 1704232800).unwrap();
    let g = Request::Group(Group::new(9307, "x".to_string()));
    assert_eq!(
        schedule_url(&g, &p),
        "https://api.mindenit.tech/schedule/groups/9307?start=1704146400&end=1704232800"
    );
    let t = Request::Teacher(Teacher::new(-3, "a".to_string(), "b".to_string()));
    assert!(schedule_url(&t, &p).starts_with("https://api.mindenit.tech/schedule/teachers/-3?"));
    let r = Request::LectureRoom(LectureRoom::new(5, "r".to_string()));
    assert!(schedule_url(&r, &p).starts_with("https://api.mindenit.tech/schedule/auditories/5?"));
}

const LECTURES: &str = r#"[
  {"auditory": "287", "startTime": 1704178800, "endTime": 1704184500, "numberPair": 2, "type": "Лк",
   "teachers": [{"id": 1, "shortName": "A", "fullName": "Aa"}],
   "groups": [{"id": 9, "name": "ПІ-23-1"}, {"id": 10, "name": "ПІ-23-2"}],
   "subject": {"brief": "ОП", "id": 77, "title": "Основи програмування"}},
  {"startTime": 1704185400, "endTime": 1704191100, "numberPair": 259, "type": 3,
   "teachers": [], "subject": {"id": 78}}
]"#;

#[test]
fn lectures_are_decoded_with_defaults_per_object() {
    let v = match get_wrapper(reply(200, LECTURES)) {
        Ok(Json::Array(v)) => v,
        _ => panic!("not an array"),
    };
    let l = parse_lecture_json(&v).unwrap();
    assert_eq!(l.len(), 2);
    assert_eq!(l[0].lecture_room, "287");
    assert_eq!(l[0].number_pair, 2);
    assert_eq!(l[0].lecture_type, "Лк");
    assert_eq!(l[0].teachers.len(), 1);
    assert_eq!(l[0].groups.len(), 2);
    assert_eq!(l[0].subject.title, "Основи програмування");
    assert_eq!(l[0].period.start_time.timestamp, 1704178800);
    assert_eq!(l[0].period.end_time.timestamp, 1704184500);
    assert_eq!(l[1].lecture_room, "");
    assert_eq!(l[1].number_pair, 3);
    assert_eq!(l[1].lecture_type, "");
    assert_eq!(l[1].teachers.len(), 0);
    assert_eq!(l[1].groups.len(), 0);
    assert_eq!((l[1].subject.id, l[1].subject.brief.as_str(), l[1].subject.title.as_str()), (78, "", ""));
    assert_eq!(l[1].period.start_time.timestamp, 1704185400);
}

#[test]
fn lecture_with_unreadable_timestamp_fails() {
    let v = match get_wrapper(reply(200, r#"[{"startTime": 12, "endTime": 1704191100}]"#)) {
        Ok(Json::Array(v)) => v,
        _ => panic!("not an array"),
    };
    assert!(matches!(parse_lecture_json(&v), Err(ParseError::InvalidTimestampProvided(s)) if s == "12"));
}

#[test]
fn schedule_is_read_from_a_reply() {
    let l = get_schedule(reply(200, LECTURES)).unwrap();
    assert_eq!(l.len(), 2);
    assert!(matches!(get_schedule(None), Err(ScheduleError::Request(RequestError::GetFailed))));
    assert!(matches!(
        get_schedule(reply(200, r#"[{"startTime": 5}]"#)),
        Err(ScheduleError::Parse(ParseError::InvalidTimestampProvided(_)))
    ));
}

#[test]
fn lecture_without_subject_gets_the_default_subject() {
    let l = get_schedule(reply(
        200,
        r#"[{"startTime": 1704178800, "endTime": 1704184500, "subject": {"brief": "ОП", "id": 77, "title": "T"}},
            {"startTime": 1704185400, "endTime": 1704191100}]"#,
    ))
    .unwrap();
    assert_eq!(l[0].subject.id, 77);
    assert_eq!((l[1].subject.brief.as_str(), l[1].subject.id, l[1].subject.title.as_str()), ("", 0, ""));
    assert_eq!((l[1].number_pair, l[1].lecture_room.as_str()), (0, ""));
}

#[test]
fn start_text_is_reported_first() {
    assert_eq!(
        Period::from_string("2024-01-02 +99:00", "nonsense").map(|_| ()),
        Err(ParseError::InvalidStringProvided("2024-01-02 +99:00".to_string()))
    );
    assert_eq!(
        Period::from_timestamp(-5, -7).map(|_| ()),
        Err(ParseError::InvalidTimestampProvided("-5".to_string()))
    );
}

#[test]
fn ten_digit_texts_read_as_timestamps() {
    let p = Period::from_string("1704146400", "1704232800").unwrap();
    assert_eq!((p.start_time.timestamp, p.start_time.nanos), (1704146400, 0));
    assert_eq!((p.end_time.timestamp, p.end_time.nanos), (1704232800, 0));
    let d = Period::day_from("1704189600").unwrap();
    assert_eq!(kyiv(&d.start_time), "2024-01-02T00:00:00.000000000");
    let w = Period::week_from("1704189600").unwrap();
    assert_eq!(kyiv(&w.start_time), "2024-01-01T00:00:00.000000000");
    assert_eq!(kyiv(&w.end_time), "2024-01-07T23:59:59.999000000");
}

#[test]
fn oversized_zone_offsets_are_refused() {
    assert_eq!(
        Period::from_string("2024-01-02 +99:00", "2024-01-03").map(|_| ()),
        Err(ParseError::InvalidStringProvided("2024-01-02 +99:00".to_string()))
    );
    assert_eq!(
        Period::day_from("2024-01-02 10:00 -2500").map(|_| ()),
        Err(ParseError::InvalidStringProvided("2024-01-02 10:00 -2500".to_string()))
    );
    assert!(Period::day_from("2024-01-31").is_ok());
    let p = Period::from_string("2024-01-02 +02:00", "2024-01-03").unwrap();
    assert!(kyiv(&p.start_time).starts_with("2024-01-02"));
}

#[test]
fn subject_defaults_where_members_are_missing() {
    let s = parse_subject_json(&vec![("title".to_string(), Json::Str("T".to_string()))]);
    assert_eq!((s.brief.as_str(), s.id, s.title.as_str()), ("", 0, "T"));
    let d = Subject::default();
    assert_eq!((d.brief.as_str(), d.id, d.title.as_str()), ("", 0, ""));
}
