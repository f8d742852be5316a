use vstd::prelude::*;
use crate::errors::{FindError, RequestError};
use crate::json::{Json, member, text_or, id_or, text_member, id_member, lemma_wrap_i32_identity};
use crate::utils::{HttpResponse, reply_array, reply_items, request_failure, find, lower_of, same_lowercase, search_outcome, regex_compiles};

verus! {

/// A student group.
#[derive(Debug, Clone)]
pub struct Group {
    pub id: i32,
    pub name: String,
}

/// What a group holds, with its name as characters.
pub struct GroupView {
    pub id: i32,
    pub name: Seq<char>,
}

impl View for Group {
    type V = GroupView;

    open spec fn view(&self) -> GroupView {
        GroupView { id: self.id, name: self.name@ }
    }
}

pub open spec fn group_views(s: Seq<Group>) -> Seq<GroupView> {
    s.map_values(|g: Group| g@)
}

/// The group that an object's members give: a member that is absent or of
/// the wrong type gives 0 or the empty name.
pub open spec fn next_group(members: Seq<(String, Json)>) -> GroupView {
    GroupView { id: id_or(members, 0), name: text_or(members, "name"@, seq![]) }
}

/// The groups that a list of JSON items decodes to: one for each object, in
/// order; items that are no objects are skipped.
pub open spec fn decoded_groups(items: Seq<Json>) -> Seq<GroupView>
    decreases items.len(),
{
    if items.len() == 0 {
        seq![]
    } else {
        match items[0] {
            Json::Object(members) => seq![next_group(members@)] + decoded_groups(items.drop_first()),
            _ => decoded_groups(items.drop_first()),
        }
    }
}

impl Group {
    pub fn new(id: i32, name: String) -> (r: Self)
        ensures
            r.id == id,
            r.name == name,
    {
        Self { id, name }
    }

    /// A copy of the group.
    pub fn duplicate(&self) -> (r: Self)
        ensures
            r == *self,
    {
        Self { id: self.id, name: self.name.clone() }
    }

    /// The group as a JSON object with members `id` and `name`.
    pub fn to_json(&self) -> (r: Json)
        ensures
            r matches Json::Object(m) && group_members_hold(m@, self@),
    {
        let id_key = String::from_str("id");
        let name_key = String::from_str("name");
        proof {
            reveal_strlit("id");
            reveal_strlit("name");
            assert(id_key@.len() != name_key@.len());
        }
        let mut members: Vec<(String, Json)> = Vec::new();
        members.push((id_key, Json::Number(Some(self.id as i64))));
        members.push((name_key, Json::Str(self.name.clone())));
        assert(member(members@.drop_first(), "name"@) == Some(members@[1].1));
        assert(member(members@, "name"@) == Some(members@[1].1));
        Json::Object(members)
    }

    /// The group's name, as it is shown to people.
    pub fn to_string(&self) -> (r: String)
        ensures
            r@ == self.name@,
    {
        self.name.clone()
    }
}

/// Decodes the groups in a list of JSON objects, in order.
///
/// Each object gives one group of its own. A member that is absent or of the
/// wrong type gives 0 or the empty name, and a number that is no `i64` gives
/// id 0.
pub fn parse_group_json(vector: &Vec<Json>) -> (r: Vec<Group>)
    ensures
        group_views(r@) == decoded_groups(vector@),
{
    let mut result: Vec<Group> = Vec::new();
    let name_key = String::from_str("name");
    let mut i: usize = 0;
    assert(vector@.subrange(0, vector@.len() as int) =~= vector@);
    assert(group_views(result@) =~= Seq::<GroupView>::empty());
    while i < vector.len()
        invariant
            i <= vector@.len(),
            name_key@ == "name"@,
            group_views(result@) + decoded_groups(vector@.subrange(i as int, vector@.len() as int))
                == decoded_groups(vector@),
        decreases vector.len() - i,
    {
        let ghost rest = vector@.subrange(i as int, vector@.len() as int);
        assert(rest.drop_first() =~= vector@.subrange(i + 1, vector@.len() as int));
        if let Json::Object(members) = &vector[i] {
            let id = id_member(members, 0);
            let name = match text_member(members, &name_key) {
                Some(s) => s,
                None => String::new(),
            };
            let ghost before = group_views(result@);
            result.push(Group::new(id, name.clone()));
            assert(group_views(result@) =~= before + seq![GroupView { id, name: name@ }]);
        }
        i += 1;
    }
    assert(vector@.subrange(vector@.len() as int, vector@.len() as int) =~= Seq::<Json>::empty());
    result
}

/// Whether `members` hold `g`'s id as a number and its name as text.
pub open spec fn group_members_hold(members: Seq<(String, Json)>, g: GroupView) -> bool {
    &&& member(members, "id"@) == Some(Json::Number(Some(g.id as i64)))
    &&& member(members, "name"@) matches Some(Json::Str(s)) && s@ == g.name
}

/// A JSON object that describes a group completely: an integer id within
/// `i32` and a text name.
pub open spec fn well_formed_group(j: Json) -> bool {
    &&& j matches Json::Object(m)
    &&& member(m@, "id"@) matches Some(Json::Number(Some(n))) && i32::MIN <= n <= i32::MAX
    &&& member(m@, "name"@) matches Some(Json::Str(_))
}

/// Decoding a list of well-formed group objects gives one group per object,
/// holding exactly that object's id and name, so encoding the groups again
/// yields objects with the same id and name members.
pub proof fn lemma_groups_round_trip(items: Seq<Json>)
    requires
        forall|i: int| 0 <= i < items.len() ==> well_formed_group(#[trigger] items[i]),
    ensures
        decoded_groups(items).len() == items.len(),
        forall|i: int|
            0 <= i < items.len() ==> (#[trigger] items[i] matches Json::Object(m) && group_members_hold(
                m@,
                decoded_groups(items)[i],
            )),
    decreases items.len(),
{
    if items.len() > 0 {
        let rest = items.drop_first();
        assert(well_formed_group(items[0]));
        if let Json::Object(m) = items[0] {
            if let Some(Json::Number(Some(n))) = member(m@, "id"@) {
                lemma_wrap_i32_identity(n as int);
            }
            assert forall|i: int| 0 <= i < rest.len() implies well_formed_group(#[trigger] rest[i]) by {
                assert(rest[i] == items[i + 1]);
            }
            lemma_groups_round_trip(rest);
            assert forall|i: int| 0 <= i < items.len() implies (#[trigger] items[i] matches Json::Object(
                m2,
            ) && group_members_hold(m2@, decoded_groups(items)[i])) by {
                if i > 0 {
                    assert(items[i] == rest[i - 1]);
                }
            }
        }
    }
}

/// Encoding groups and decoding the objects gives the same groups back.
pub fn encode_groups(groups: &Vec<Group>) -> (r: Vec<Json>)
    ensures
        decoded_groups(r@) == group_views(groups@),
{
    let mut r: Vec<Json> = Vec::new();
    let mut i: usize = 0;
    while i < groups.len()
        invariant
            i <= groups@.len(),
            r@.len() == i,
            forall|k: int| 0 <= k < i ==> (#[trigger] r@[k] matches Json::Object(m) && group_members_hold(m@, groups@[k]@)),
        decreases groups.len() - i,
    {
        r.push(groups[i].to_json());
        i += 1;
    }
    proof {
        assert forall|k: int| 0 <= k < r@.len() implies well_formed_group(#[trigger] r@[k]) by {
            assert(r@[k] matches Json::Object(m) && group_members_hold(m@, groups@[k]@));
        }
        lemma_groups_round_trip(r@);
        let d = decoded_groups(r@);
        assert forall|k: int| 0 <= k < r@.len() implies d[k] == #[trigger] group_views(groups@)[k] by {
            assert(r@[k] matches Json::Object(m) && group_members_hold(m@, d[k]));
            assert(r@[k] matches Json::Object(m) && group_members_hold(m@, groups@[k]@));
        }
        assert(d =~= group_views(groups@));
    }
    r
}

/// The address that lists all groups.
pub const GROUPS_URL: &'static str = "https://api.mindenit.tech/lists/groups";

/// Reads all groups from the reply to a GET of `GROUPS_URL` (`None` where the
/// request failed); fails as `reply_array` does.
pub fn get_groups(reply: Option<HttpResponse>) -> (r: Result<Vec<Group>, RequestError>)
    ensures
        match reply_items(reply) {
            Some(items) => r matches Ok(v) && group_views(v@) == decoded_groups(items),
            None => r matches Err(e) && request_failure(reply, e),
        },
{
    match reply_array(reply) {
        Ok(items) => Ok(parse_group_json(&items)),
        Err(e) => Err(e),
    }
}

/// The groups whose names `name` finds, in order.
pub open spec fn groups_matching(groups: Seq<Group>, name: Seq<char>) -> Seq<Group>
    decreases groups.len(),
{
    if groups.len() == 0 {
        seq![]
    } else {
        let rest = groups_matching(groups.drop_first(), name);
        if search_outcome(name, groups[0].name@) == Some(true) {
            seq![groups[0]] + rest
        } else {
            rest
        }
    }
}

/// Finds the groups whose names `name` matches, as `find` matches.
///
/// Fails with `InvalidRegexString(name)` where there is a group to search and
/// the lower-cased `name` is no regular expression, and with
/// `InvalidGroupName(name)` where no group matches.
pub fn find_group(name: &str, groups: &Vec<Group>) -> (r: Result<Vec<Group>, FindError>)
    ensures
        groups@.len() > 0 && !regex_compiles(lower_of(name@)) ==> (r matches Err(
            FindError::InvalidRegexString(s),
        ) && s@ == name@),
        groups@.len() == 0 || regex_compiles(lower_of(name@)) ==> if groups_matching(
            groups@,
            name@,
        ).len() > 0 {
            r matches Ok(v) && v@ == groups_matching(groups@, name@)
        } else {
            r matches Err(FindError::InvalidGroupName(s)) && s@ == name@
        },
{
    let mut result: Vec<Group> = Vec::new();
    let mut i: usize = 0;
    assert(groups@.subrange(0, groups@.len() as int) =~= groups@);
    while i < groups.len()
        invariant
            i <= groups@.len(),
            i > 0 ==> regex_compiles(lower_of(name@)),
            result@ + groups_matching(groups@.subrange(i as int, groups@.len() as int), name@)
                == groups_matching(groups@, name@),
        decreases groups.len() - i,
    {
        let ghost rest = groups@.subrange(i as int, groups@.len() as int);
        assert(rest.drop_first() =~= groups@.subrange(i + 1, groups@.len() as int));
        let found = find(name, groups[i].name.as_str());
        match found {
            Ok(true) => {
                let ghost before = result@;
                result.push(groups[i].duplicate());
                assert(result@ =~= before + seq![groups@[i as int]]);
            },
            Ok(false) => {},
            Err(e) => {
                return Err(e);
            },
        }
        i += 1;
    }
    assert(groups@.subrange(groups@.len() as int, groups@.len() as int) =~= Seq::<Group>::empty());
    assert(result@ =~= groups_matching(groups@, name@));
    if result.len() == 0 {
        Err(FindError::InvalidGroupName(String::from_str(name)))
    } else {
        Ok(result)
    }
}

/// The first group whose name equals `name` once both are lower-cased.
pub open spec fn first_named_group(groups: Seq<Group>, name: Seq<char>) -> Option<Group>
    decreases groups.len(),
{
    if groups.len() == 0 {
        None
    } else if lower_of(groups[0].name@) == lower_of(name) {
        Some(groups[0])
    } else {
        first_named_group(groups.drop_first(), name)
    }
}

/// Finds the first group named exactly `name`, ignoring case; fails with
/// `InvalidGroupName(name)` where there is none.
pub fn find_exect_group(name: &str, groups: &Vec<Group>) -> (r: Result<Group, FindError>)
    ensures
        match first_named_group(groups@, name@) {
            Some(g) => r == Ok::<Group, FindError>(g),
            None => r matches Err(FindError::InvalidGroupName(s)) && s@ == name@,
        },
{
    let mut i: usize = 0;
    assert(groups@.subrange(0, groups@.len() as int) =~= groups@);
    while i < groups.len()
        invariant
            i <= groups@.len(),
            first_named_group(groups@, name@) == first_named_group(
                groups@.subrange(i as int, groups@.len() as int),
                name@,
            ),
        decreases groups.len() - i,
    {
        let ghost rest = groups@.subrange(i as int, groups@.len() as int);
        assert(rest.drop_first() =~= groups@.subrange(i + 1, groups@.len() as int));
        if same_lowercase(name, groups[i].name.as_str()) {
            return Ok(groups[i].duplicate());
        }
        i += 1;
    }
    Err(FindError::InvalidGroupName(String::from_str(name)))
}

} // verus!
