use nure_tools::errors::FindError;
use nure_tools::groups::{encode_groups, find_exect_group, find_group, parse_group_json, Group};
use nure_tools::json::Json;
use nure_tools::lecture_rooms::{find_exect_lecture_room, find_lecture_room, parse_lecture_room_json, LectureRoom};
use nure_tools::teachers::{find_exect_teacher, find_teacher, parse_teacher_json, Teacher};
use nure_tools::utils::{get_wrapper, HttpResponse};

fn text(s: &str) -> Json {
    Json::Str(s.to_string())
}

fn object(members: Vec<(&str, Json)>) -> Json {
    Json::Object(members.into_iter().map(|(k, v)| (k.to_string(), v)).collect())
}

fn items(body: &str) -> Vec<Json> {
    match get_wrapper(Some(HttpResponse { status: 200, body: body.as_bytes().to_vec() })) {
        Ok(Json::Array(v)) => v,
        _ => panic!("not a JSON array"),
    }
}

fn groups() -> Vec<Group> {
    parse_group_json(&items(
        r#"[{"id": 1, "name": "ПЗПІ-23-2"}, {"id": 2, "name": "ПІ-23-1"}, {"id": 3, "name": "КН-22-1"}]"#,
    ))
}

#[test]
fn decodes_groups_in_order() {
    let g = groups();
    assert_eq!(g.len(), 3);
    assert_eq!((g[0].id, g[0].name.as_str()), (1, "ПЗПІ-23-2"));
    assert_eq!((g[2].id, g[2].name.as_str()), (3, "КН-22-1"));
}

#[test]
fn group_round_trip_keeps_ids_and_names() {
    let original = vec![
        object(vec![("id", Json::Number(Some(-7))), ("name", text("a"))]),
        object(vec![("name", text("b")), ("id", Json::Number(Some(2147483647)))]),
    ];
    let decoded = parse_group_json(&original);
    let again = parse_group_json(&encode_groups(&decoded));
    assert_eq!(decoded.len(), 2);
    assert_eq!(again.len(), 2);
    for (a, b) in decoded.iter().zip(again.iter()) {
        assert_eq!(a.id, b.id);
        assert_eq!(a.name, b.name);
    }
    assert_eq!((decoded[0].id, decoded[0].name.as_str()), (-7, "a"));
    assert_eq!((decoded[1].id, decoded[1].name.as_str()), (2147483647, "b"));
}

#[test]
fn group_decoding_gives_defaults_per_object() {
    let g = parse_group_json(&items(r#"[{"id": 4, "name": "x"}, 17, {"name": "y"}, {"id": "5"}, {"id": 1.5}]"#));
    let seen: Vec<(i32, &str)> = g.iter().map(|g| (g.id, g.name.as_str())).collect();
    assert_eq!(seen, vec![(4, "x"), (0, "y"), (0, ""), (0, "")]);
}

#[test]
fn group_without_name_gets_the_empty_name() {
    let g = parse_group_json(&items(r#"[{"id": 1, "name": "ПІ-23"}, {"id": 2}]"#));
    let seen: Vec<(i32, &str)> = g.iter().map(|g| (g.id, g.name.as_str())).collect();
    assert_eq!(seen, vec![(1, "ПІ-23"), (2, "")]);
}

#[test]
fn group_ids_wrap_into_i32() {
    let g = parse_group_json(&items(r#"[{"id": 4294967297, "name": "a"}, {"id": -2147483649, "name": "b"}]"#));
    assert_eq!(g[0].id, 1);
    assert_eq!(g[1].id, 2147483647);
}

#[test]
fn first_group_defaults_to_zero_and_empty() {
    let g = parse_group_json(&items(r#"[{}]"#));
    assert_eq!((g[0].id, g[0].name.as_str()), (0, ""));
}

#[test]
fn find_group_ignores_case() {
    let found = find_group("пі-23", &groups()).unwrap();
    let ids: Vec<i32> = found.iter().map(|g| g.id).collect();
    assert_eq!(ids, vec![1, 2]);
    let upper = find_group("ПІ-23", &groups()).unwrap();
    assert_eq!(upper.len(), 2);
}

#[test]
fn find_group_reads_a_regular_expression() {
    let found = find_group("^пі", &groups()).unwrap();
    assert_eq!(found.len(), 1);
    assert_eq!(found[0].id, 2);
}

#[test]
fn find_group_without_match_names_the_input() {
    match find_group("ФІЗ-99", &groups()) {
        Err(FindError::InvalidGroupName(s)) => assert_eq!(s, "ФІЗ-99"),
        other => panic!("unexpected {:?}", other.map(|v| v.len())),
    }
}

#[test]
fn find_group_in_no_groups_names_the_input() {
    match find_group("(", &Vec::new()) {
        Err(FindError::InvalidGroupName(s)) => assert_eq!(s, "("),
        _ => panic!("expected InvalidGroupName"),
    }
}

#[test]
fn find_group_with_bad_pattern_fails() {
    match find_group("(", &groups()) {
        Err(FindError::InvalidRegexString(s)) => assert_eq!(s, "("),
        _ => panic!("expected InvalidRegexString"),
    }
}

#[test]
fn find_exect_group_ignores_case() {
    let g = find_exect_group("пзпі-23-2", &groups()).unwrap();
    assert_eq!(g.id, 1);
    match find_exect_group("пзпі-23", &groups()) {
        Err(FindError::InvalidGroupName(s)) => assert_eq!(s, "пзпі-23"),
        _ => panic!("expected InvalidGroupName"),
    }
}

#[test]
fn group_shows_its_name() {
    assert_eq!(Group::new(3, "КН".to_string()).to_string(), "КН");
}

fn teachers() -> Vec<Teacher> {
    parse_teacher_json(&items(
        r#"[{"id": 10, "shortName": "Новіков О. В.", "fullName": "Новіков Олег Вікторович"},
            {"id": 11, "shortName": "Терещенко Г. Ю.", "fullName": "Терещенко Гліб Юрійович"}]"#,
    ))
}

#[test]
fn decodes_teachers() {
    let t = teachers();
    assert_eq!(t.len(), 2);
    assert_eq!(t[1].id, 11);
    assert_eq!(t[1].short_name, "Терещенко Г. Ю.");
    assert_eq!(t[1].full_name, "Терещенко Гліб Юрійович");
    assert_eq!(t[1].to_string(), "Терещенко Гліб Юрійович");
}

#[test]
fn teacher_decoding_gives_defaults_per_object() {
    let t = parse_teacher_json(&items(r#"[{"id": 1, "shortName": "A", "fullName": "Aa"}, {"id": 2, "fullName": "Bb"}]"#));
    assert_eq!((t[1].id, t[1].short_name.as_str(), t[1].full_name.as_str()), (2, "", "Bb"));
}

#[test]
fn find_teacher_searches_full_names() {
    let found = find_teacher("гліб", &teachers()).unwrap();
    assert_eq!(found.len(), 1);
    assert_eq!(found[0].id, 11);
    match find_teacher("Петренко", &teachers()) {
        Err(FindError::InvalidTeacherName(s)) => assert_eq!(s, "Петренко"),
        _ => panic!("expected InvalidTeacherName"),
    }
}

#[test]
fn find_exect_teacher_compares_short_names() {
    assert_eq!(find_exect_teacher("терещенко г. ю.", &teachers()).unwrap().id, 11);
    match find_exect_teacher("Терещенко Гліб Юрійович", &teachers()) {
        Err(FindError::InvalidTeacherName(_)) => {},
        _ => panic!("expected InvalidTeacherName"),
    }
}

fn rooms() -> Vec<LectureRoom> {
    parse_lecture_room_json(&items(r#"[{"id": 100, "name": "філія"}, {"id": 101, "name": "287"}]"#))
}

#[test]
fn decodes_lecture_rooms() {
    let r = rooms();
    assert_eq!((r[0].id, r[0].name.as_str()), (100, "філія"));
    assert_eq!(r[1].to_string(), "287");
}

#[test]
fn find_lecture_room_matches_anywhere() {
    let found = find_lecture_room("і", &rooms()).unwrap();
    assert_eq!(found.len(), 1);
    match find_lecture_room("999", &rooms()) {
        Err(FindError::InvalidLectureRoomName(s)) => assert_eq!(s, "999"),
        _ => panic!("expected InvalidLectureRoomName"),
    }
}

#[test]
fn find_exect_lecture_room_names_the_input() {
    assert_eq!(find_exect_lecture_room("ФІЛІЯ", &rooms()).unwrap().id, 100);
    match find_exect_lecture_room("філ", &rooms()) {
        Err(FindError::InvalidLectureRoomName(s)) => assert_eq!(s, "філ"),
        _ => panic!("expected InvalidLectureRoomName"),
    }
}
