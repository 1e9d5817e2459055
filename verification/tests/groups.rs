use vaultwarden_scim::account::EventType;
use vaultwarden_scim::error::ScimError;
use vaultwarden_scim::group::Group;
use vaultwarden_scim::group_change::{
    delete_group, patch_group, post_group, put_group, DeletionCommand, DeletionReply, DeletionStep, GroupChange,
    GroupCommand, GroupReply, GroupStep, ScimGroupRequest,
};
use vaultwarden_scim::groups::{check_member_count, check_member_op_count, get_group, GroupLookup};
use vaultwarden_scim::json::{Json, Member};
use vaultwarden_scim::patch::{PatchOp, PatchOperation, PATCH_OP_URN};
use vaultwarden_scim::scim::{ScimJson, ScimResponse};
use vaultwarden_scim::users::Site;

type Answer = Result<ScimResponse, ScimError>;

/// A database of one organization's groups, with the failures that a test asks for.
#[derive(Default)]
struct Db {
    groups: Vec<(Group, Vec<String>)>,
    people: Vec<String>,
    granted: Vec<String>,
    log: Vec<(EventType, String)>,
    /// What was written or deleted, in order.
    writes: Vec<String>,
    failing: bool,
    duplicate: bool,
    next_id: usize,
}

fn site() -> Site {
    Site { domain: "https://vault".to_owned(), org_uuid: "org".to_owned(), mail_enabled: true }
}

fn ids(values: &[&str]) -> Vec<String> {
    values.iter().map(|v| (*v).to_owned()).collect()
}

fn group(id: &str, external_id: Option<&str>) -> Group {
    Group {
        uuid: id.to_owned(),
        organizations_uuid: "org".to_owned(),
        name: format!("Group {id}"),
        access_all: false,
        external_id: external_id.map(str::to_owned),
        creation_date: "then".to_owned(),
        revision_date: "then".to_owned(),
    }
}

impl Db {
    fn with(groups: Vec<(Group, Vec<String>)>) -> Db {
        Db { groups, people: ids(&["a", "b", "c", "d"]), ..Db::default() }
    }

    fn at(&self, id: &str) -> usize {
        self.groups.iter().position(|(g, _)| g.uuid == id).expect("group")
    }

    fn find(&self, id: &str) -> Option<Group> {
        self.groups.iter().find(|(g, _)| g.uuid == id).map(|(g, _)| g.copy())
    }

    fn members(&self, id: &str) -> Vec<String> {
        let mut members = self.groups[self.at(id)].1.clone();
        members.sort();
        members
    }

    fn perform(&mut self, id: &str, command: GroupCommand) -> GroupReply {
        match command {
            GroupCommand::Lookup(GroupLookup::ResolveMembers(values)) => {
                GroupReply::Known(self.people.iter().filter(|p| values.contains(p)).cloned().collect())
            }
            GroupCommand::Lookup(GroupLookup::FindHolder(external_id)) => GroupReply::Holder(
                self.groups
                    .iter()
                    .find(|(g, _)| g.external_id.as_deref() == Some(external_id.as_str()))
                    .map(|(g, _)| g.uuid.clone()),
            ),
            GroupCommand::Lookup(GroupLookup::HasCollections) => {
                GroupReply::Collections(self.granted.iter().any(|g| g == id))
            }
            GroupCommand::Lookup(GroupLookup::ListMembers) => {
                GroupReply::Members(self.groups.iter().find(|(g, _)| g.uuid == id).map_or(vec![], |(_, m)| m.clone()))
            }
            GroupCommand::Save(_) if self.duplicate => GroupReply::Duplicate,
            GroupCommand::Save(group) => {
                self.writes.push(format!("save {}", group.name));
                match self.groups.iter().position(|(g, _)| g.uuid == group.uuid) {
                    Some(at) => self.groups[at].0 = group,
                    None => self.groups.push((group, vec![])),
                }
                GroupReply::Written("now".to_owned())
            }
            GroupCommand::AddMember(_) if self.failing => GroupReply::Saved(false),
            GroupCommand::AddMember(member) => {
                self.writes.push(format!("+{member}"));
                let at = self.at(id);
                if !self.groups[at].1.contains(&member) {
                    self.groups[at].1.push(member);
                }
                GroupReply::Saved(true)
            }
            GroupCommand::RemoveMember(member) => {
                self.writes.push(format!("-{member}"));
                let at = self.at(id);
                self.groups[at].1.retain(|m| *m != member);
                GroupReply::Saved(true)
            }
            GroupCommand::Log(event, group) => {
                self.log.push((event, group));
                GroupReply::Noted
            }
        }
    }

    fn drive(&mut self, id: &str, started: Result<(GroupChange, GroupStep), ScimError>) -> Answer {
        let (mut change, mut step) = started?;
        loop {
            match step {
                GroupStep::Done(answer) => return answer,
                GroupStep::Ask(command) => {
                    let reply = self.perform(id, command);
                    step = change.resume(reply);
                }
            }
        }
    }

    fn post(&mut self, request: ScimGroupRequest) -> Answer {
        self.next_id += 1;
        let id = format!("new-{}", self.next_id);
        let started = post_group(true, Ok(ScimJson(request)), id.clone(), "now".to_owned(), site());
        self.drive(&id, started)
    }

    fn put(&mut self, id: &str, request: ScimGroupRequest) -> Answer {
        let started = put_group(true, self.find(id), Ok(ScimJson(request)), site());
        self.drive(id, started)
    }

    fn patch(&mut self, id: &str, operations: Vec<PatchOperation>) -> Answer {
        let body = PatchOp { schemas: vec![PATCH_OP_URN.to_owned()], operations };
        let started = patch_group(true, self.find(id), Ok(ScimJson(body)), site());
        self.drive(id, started)
    }

    fn delete(&mut self, id: &str) -> Answer {
        let (mut deletion, mut step) = delete_group(true, self.find(id))?;
        loop {
            match step {
                DeletionStep::Done(answer) => return answer,
                DeletionStep::Ask(command) => {
                    let reply = match command {
                        DeletionCommand::HasCollections => {
                            DeletionReply::Collections(self.granted.iter().any(|g| g == id))
                        }
                        DeletionCommand::Delete(_) if self.failing => DeletionReply::Deleted(false),
                        DeletionCommand::Delete(group) => {
                            self.groups.retain(|(g, _)| g.uuid != group.uuid);
                            DeletionReply::Deleted(true)
                        }
                        DeletionCommand::Log(event, group) => {
                            self.log.push((event, group));
                            DeletionReply::Noted
                        }
                    };
                    step = deletion.resume(reply);
                }
            }
        }
    }
}

fn request(name: Option<&str>, external_id: Option<&str>, members: Option<&[&str]>) -> ScimGroupRequest {
    ScimGroupRequest {
        display_name: name.map(str::to_owned),
        external_id: external_id.map(str::to_owned),
        members: members.map(ids),
    }
}

fn members_op(op: &str, values: &[&str]) -> PatchOperation {
    let items = values
        .iter()
        .map(|v| Json::Object(vec![Member { name: "value".to_owned(), value: Json::Text((*v).to_owned()) }]))
        .collect();
    PatchOperation { op: op.to_owned(), path: Some("members".to_owned()), value: Some(Json::Array(items)) }
}

fn text_op(op: &str, path: &str, value: &str) -> PatchOperation {
    PatchOperation { op: op.to_owned(), path: Some(path.to_owned()), value: Some(Json::Text(value.to_owned())) }
}

fn refusal(answer: Answer) -> (u16, Option<&'static str>, String) {
    let e = answer.expect_err("must be refused");
    (e.status.code, e.scim_type, e.detail)
}

fn text<'a>(answer: &'a ScimResponse, name: &str) -> Option<&'a str> {
    match answer.body.as_ref().expect("body").get(name) {
        Some(Json::Text(text)) => Some(text),
        _ => None,
    }
}

fn shown_members(answer: &ScimResponse) -> Vec<String> {
    match answer.body.as_ref().expect("body").get("members") {
        Some(Json::Array(items)) => items
            .iter()
            .map(|item| match item.get("value") {
                Some(Json::Text(id)) => id.clone(),
                _ => panic!("a member must have a value"),
            })
            .collect(),
        _ => panic!("members must be shown"),
    }
}

#[test]
fn a_group_is_created_with_its_members() {
    let mut db = Db::with(vec![]);
    let answer = db.post(request(Some("Engineering"), Some("ext"), Some(&["a", "b", "a"]))).expect("created");
    assert_eq!(answer.status.code, 201);
    assert_eq!(answer.location.as_deref(), Some("https://vault/scim/v2/org/Groups/new-1"));
    assert_eq!(text(&answer, "displayName"), Some("Engineering"));
    assert_eq!(text(&answer, "externalId"), Some("ext"));
    assert_eq!(shown_members(&answer), ids(&["a", "b"]));
    assert_eq!(db.writes, ["save Engineering", "+a", "+b"], "nobody is written twice");
    assert_eq!(db.log, [(EventType::GroupCreated, "new-1".to_owned())]);
    let meta = answer.body.as_ref().expect("body").get("meta").expect("meta");
    assert!(matches!(meta.get("lastModified"), Some(Json::Text(date)) if date == "now"));
    assert!(!db.groups[0].0.access_all);
}

#[test]
fn a_new_group_is_checked_before_it_is_written() {
    let mut db = Db::with(vec![(group("g", Some("taken")), vec![])]);
    for name in [None, Some(""), Some(" \t ")] {
        assert_eq!(
            refusal(db.post(request(name, None, None))),
            (400, Some("invalidValue"), "displayName is required".to_owned())
        );
    }
    assert_eq!(
        refusal(db.post(request(Some(&"n".repeat(101)), None, None))).2,
        "displayName must be at most 100 characters"
    );
    assert_eq!(
        refusal(db.post(request(Some("n"), Some(&"e".repeat(301)), None))).2,
        "externalId must be at most 300 characters"
    );
    assert_eq!(
        refusal(db.post(request(Some("n"), Some("taken"), None))),
        (409, Some("uniqueness"), "A group with this externalId already exists".to_owned())
    );
    assert_eq!(
        refusal(db.post(request(Some("n"), None, Some(&["a", "stranger"])))),
        (
            400,
            Some("invalidValue"),
            "members must reference existing members of this organization (provision the user first)".to_owned()
        )
    );
    let crowd: Vec<String> = (0..1001).map(|i| format!("m{i}")).collect();
    let crowd: Vec<&str> = crowd.iter().map(String::as_str).collect();
    assert_eq!(
        refusal(db.post(request(Some("n"), None, Some(&crowd)))).2,
        "Too many members in one request; split the membership update across several requests"
    );
    assert!(db.writes.is_empty());
}

#[test]
fn a_concurrent_duplicate_is_a_conflict() {
    let mut db = Db::with(vec![(group("g", None), vec![])]);
    db.duplicate = true;
    assert_eq!(
        refusal(db.post(request(Some("n"), Some("e"), None))),
        (409, Some("uniqueness"), "A group with this externalId already exists".to_owned())
    );
    assert_eq!(refusal(db.put("g", request(None, Some("e"), None))).0, 409);
    assert!(db.log.is_empty());
}

#[test]
fn put_replaces_the_member_set_as_a_difference() {
    let mut db = Db::with(vec![(group("g", Some("ext")), ids(&["a", "b"]))]);
    let answer = db.put("g", request(Some("Renamed"), None, Some(&["b", "c"]))).expect("replaced");
    assert_eq!(answer.status.code, 200);
    assert_eq!(db.writes, ["save Renamed", "+c", "-a"], "only what changes is written");
    assert_eq!(db.members("g"), ids(&["b", "c"]));
    assert_eq!(db.log, [(EventType::GroupUpdated, "g".to_owned())]);
    assert_eq!(text(&answer, "externalId"), Some("ext"), "an absent attribute stays");
}

#[test]
fn put_keeps_omitted_members_and_clears_empty_ones() {
    let mut db = Db::with(vec![(group("g", Some("ext")), ids(&["a", "b"]))]);
    db.put("g", request(Some("Sparse"), None, None)).expect("renamed");
    assert_eq!(db.members("g"), ids(&["a", "b"]));
    db.put("g", request(None, None, Some(&[]))).expect("cleared");
    assert!(db.members("g").is_empty());
}

#[test]
fn put_refuses_a_blank_name_and_a_taken_id() {
    let mut db = Db::with(vec![(group("g", Some("one")), vec![]), (group("h", Some("two")), vec![])]);
    for blank in ["", "  "] {
        assert_eq!(
            refusal(db.put("g", request(Some(blank), None, None))).2,
            "displayName is required and cannot be cleared"
        );
    }
    assert_eq!(refusal(db.put("g", request(None, Some("two"), None))).0, 409);
    assert!(db.put("g", request(None, Some("one"), None)).is_ok(), "its own id is fine");
    assert_eq!(refusal(db.put("missing", request(None, None, None))).0, 404);
}

#[test]
fn patch_applies_member_operations_in_order() {
    let start = || Db::with(vec![(group("g", Some("ext")), ids(&["a", "b"]))]);
    let mut db = start();
    db.patch("g", vec![members_op("remove", &["a"]), members_op("add", &["a"])]).expect("patched");
    assert_eq!(db.members("g"), ids(&["a", "b"]));
    let mut db = start();
    db.patch("g", vec![members_op("add", &["c"]), members_op("remove", &["c"])]).expect("patched");
    assert_eq!(db.members("g"), ids(&["a", "b"]));
    let mut db = start();
    let answer = db.patch("g", vec![members_op("replace", &["c"]), members_op("add", &["d"])]).expect("patched");
    assert_eq!(db.members("g"), ids(&["c", "d"]), "a replace does not swallow what follows");
    assert_eq!(shown_members(&answer), ids(&["c", "d"]));
    assert_eq!(db.writes, ["+c", "-a", "-b", "+d"], "a patch on members alone does not write the group");
}

#[test]
fn removing_strangers_is_a_no_op() {
    let mut db = Db::with(vec![(group("g", None), ids(&["a"]))]);
    db.patch("g", vec![members_op("remove", &["stranger", "a", "b"])]).expect("patched");
    assert_eq!(db.writes, ["-a", "-b"], "only members of the organization are reached");
    assert_eq!(
        refusal(db.patch("g", vec![members_op("add", &["stranger"])])).2,
        "members must reference existing members of this organization (provision the user first)"
    );
}

#[test]
fn a_failing_operation_leaves_no_member_change_behind() {
    let mut db = Db::with(vec![(group("g", Some("ext")), ids(&["a"]))]);
    let operations = vec![members_op("add", &["b"]), members_op("add", &["stranger"])];
    assert_eq!(refusal(db.patch("g", operations)).0, 400);
    assert!(db.writes.is_empty());

    // On an unmanaged group a replace that adds is refused before the removal.
    let mut db = Db::with(vec![(group("g", None), ids(&["a", "b"]))]);
    db.granted = ids(&["g"]);
    let operations = vec![members_op("remove", &["a"]), members_op("replace", &["a", "b"])];
    assert_eq!(refusal(db.patch("g", operations)).1, Some("mutability"));
    assert!(db.writes.is_empty());
}

#[test]
fn an_unmanaged_group_accepts_removals_but_refuses_additions() {
    let mut unmanaged = group("g", None);
    for access_all in [false, true] {
        unmanaged.access_all = access_all;
        let mut db = Db::with(vec![(unmanaged.copy(), ids(&["a", "b"]))]);
        db.granted = ids(&["g"]);
        assert_eq!(refusal(db.patch("g", vec![members_op("add", &["c"])])).1, Some("mutability"));
        assert_eq!(refusal(db.patch("g", vec![members_op("add", &["a"])])).1, Some("mutability"));
        assert_eq!(refusal(db.put("g", request(None, None, Some(&["a", "c"])))).1, Some("mutability"));
        assert!(db.writes.is_empty(), "a refused change must leave the group exactly as it was");
        db.patch("g", vec![members_op("remove", &["a"])]).expect("removals proceed");
        db.patch("g", vec![members_op("replace", &["b"])]).expect("a replace that adds nobody proceeds");
        db.put("g", request(None, None, Some(&[]))).expect("clearing proceeds");
        assert!(db.members("g").is_empty());
    }
    // A group that opens everything is off limits even where SCIM manages it.
    let mut open = group("h", Some("ext"));
    open.access_all = true;
    let mut db = Db::with(vec![(open, vec![])]);
    assert_eq!(refusal(db.patch("h", vec![members_op("add", &["c"])])).1, Some("mutability"));
    // A managed group with grants, and an unmanaged one without, are the normal cases.
    let mut db = Db::with(vec![(group("m", Some("ext")), vec![]), (group("n", None), vec![])]);
    db.granted = ids(&["m"]);
    assert!(db.patch("m", vec![members_op("add", &["c"])]).is_ok());
    assert!(db.patch("n", vec![members_op("add", &["c"])]).is_ok());
}

#[test]
fn a_refused_replacement_leaves_the_group_exactly_as_it_was() {
    let mut open = group("h", Some("ext"));
    open.access_all = true;
    for stored in [group("g", None), open] {
        let id = stored.uuid.clone();
        let mut db = Db::with(vec![(stored, ids(&["a", "b"]))]);
        db.granted = ids(&["g"]);
        // The new name must not land either.
        let (code, scim_type, _) = refusal(db.put(&id, request(Some("New"), None, Some(&["b", "c"]))));
        assert_eq!((code, scim_type), (400, Some("mutability")));
        assert!(db.writes.is_empty() && db.log.is_empty());
        assert_eq!(db.groups[0].0.name, format!("Group {id}"));
        assert_eq!(db.members(&id), ids(&["a", "b"]));
        // A replacement that adds nobody goes through, name and all.
        db.put(&id, request(Some("New"), None, Some(&["b"]))).expect("only removes");
        assert_eq!(db.writes, ["save New", "-a"]);
    }
}

#[test]
fn external_ids_of_access_granting_groups_do_not_change_hands() {
    let mut db = Db::with(vec![(group("g", None), vec![]), (group("h", Some("ext")), vec![])]);
    db.granted = ids(&["g", "h"]);
    for (id, value) in [("g", "mine"), ("h", ""), ("h", "   ")] {
        assert_eq!(refusal(db.put(id, request(None, Some(value), None))).1, Some("mutability"));
        assert_eq!(refusal(db.patch(id, vec![text_op("replace", "externalId", value)])).1, Some("mutability"));
    }
    assert!(db.writes.is_empty());
    assert!(db.put("h", request(None, Some("other"), None)).is_ok(), "a managed group may be renumbered");
    assert!(db.put("g", request(None, Some(" "), None)).is_ok(), "clearing nothing is fine");
    // Without grants both directions are open.
    let mut db = Db::with(vec![(group("g", None), vec![])]);
    db.patch("g", vec![text_op("add", "externalId", "mine")]).expect("adopted");
    assert_eq!(db.groups[0].0.external_id.as_deref(), Some("mine"));
    db.patch("g", vec![text_op("remove", "externalId", "x"), members_op("add", &["a"])]).expect("abandoned");
    assert_eq!(db.groups[0].0.external_id, None);
    assert_eq!(db.members("g"), ids(&["a"]));
}

#[test]
fn a_group_name_cannot_be_cleared() {
    let mut db = Db::with(vec![(group("g", None), vec![])]);
    for operation in [text_op("remove", "displayName", "x"), text_op("replace", "displayName", " ")] {
        assert_eq!(
            refusal(db.patch("g", vec![operation])),
            (400, Some("invalidValue"), "displayName is required and cannot be cleared".to_owned())
        );
    }
    db.patch("g", vec![text_op("replace", "displayName", "New")]).expect("renamed");
    assert_eq!(db.groups[0].0.name, "New");
}

#[test]
fn oversized_requests_are_refused() {
    let mut db = Db::with(vec![(group("g", None), vec![])]);
    let operations = (0..1001).map(|_| members_op("add", &[])).collect();
    assert_eq!(
        refusal(db.patch("g", operations)).2,
        "Too many member operations in one request; split the membership update across several requests"
    );
    let crowd: Vec<String> = (0..1001).map(|i| format!("m{i}")).collect();
    let crowd: Vec<&str> = crowd.iter().map(String::as_str).collect();
    assert_eq!(
        refusal(db.patch("g", vec![members_op("remove", &crowd)])).2,
        "Too many members in one request; split the membership update across several requests"
    );
    assert!(check_member_count(1000).is_ok() && check_member_count(1001).is_err());
    assert!(check_member_op_count(1000).is_ok() && check_member_op_count(1001).is_err());
}

#[test]
fn a_failing_member_write_is_an_internal_error() {
    let mut db = Db::with(vec![(group("g", None), vec![])]);
    db.failing = true;
    assert_eq!(refusal(db.patch("g", vec![members_op("add", &["a"])])).0, 500);
    assert!(db.log.is_empty());
}

#[test]
fn only_managed_groups_are_deleted() {
    let mut db = Db::with(vec![(group("g", None), vec![]), (group("h", Some("e")), vec![])]);
    db.granted = ids(&["g", "h"]);
    assert_eq!(refusal(db.delete("g")).1, Some("mutability"));
    assert_eq!(db.delete("h").expect("deleted").status.code, 204);
    assert_eq!(db.log, [(EventType::GroupDeleted, "h".to_owned())]);
    assert_eq!(refusal(db.delete("h")).0, 404);
    db.granted.clear();
    db.failing = true;
    assert_eq!(refusal(db.delete("g")).0, 500);
    assert_eq!(db.log.len(), 1, "a deletion that failed is not logged");
}

#[test]
fn disabled_groups_answer_501_on_every_verb() {
    let expected = (
        501,
        None,
        "Group support is disabled on this server (ORG_GROUPS_ENABLED=false)".to_owned(),
    );
    let body = || Ok(ScimJson(request(Some("n"), None, None)));
    let patch = || Ok(ScimJson(PatchOp { schemas: vec![], operations: vec![] }));
    let refused = |r: Result<(GroupChange, GroupStep), ScimError>| match r {
        Err(e) => (e.status.code, e.scim_type, e.detail),
        Ok(_) => panic!("must be refused"),
    };
    assert_eq!(refused(post_group(false, body(), "i".to_owned(), "now".to_owned(), site())), expected);
    assert_eq!(refused(put_group(false, None, body(), site())), expected);
    assert_eq!(refused(patch_group(false, None, patch(), site())), expected);
    assert_eq!(refusal(get_group(false, None, &vec![], &site())), expected);
    match delete_group(false, None) {
        Err(e) => assert_eq!(e.status.code, 501),
        Ok(_) => panic!("must be refused"),
    }
}

#[test]
fn a_group_is_shown_with_its_members() {
    assert_eq!(refusal(get_group(true, None, &vec![], &site())).0, 404);
    let answer = get_group(true, Some(group("g", None)), &ids(&["a"]), &site()).expect("found");
    assert_eq!(shown_members(&answer), ids(&["a"]));
    assert!(answer.body.as_ref().expect("body").get("externalId").is_none(), "omitted rather than null");
}

#[test]
fn the_precheck_agrees_with_applying_the_operations() {
    // On a group that SCIM does not manage, every list of these operations is either refused
    // whole, or goes through whole.
    let pool = [
        ("remove", &["a"][..]),
        ("replace", &["a"][..]),
        ("replace", &["b"][..]),
        ("add", &[][..]),
        ("add", &["b"][..]),
        ("remove", &["stranger"][..]),
    ];
    for first in &pool {
        for second in &pool {
            let start = vec!["a", "b"];
            let (mut current, mut allowed) = (start.clone(), true);
            for (op, values) in [first, second] {
                match *op {
                    "remove" => current.retain(|id| !values.contains(id)),
                    "add" => allowed &= values.is_empty(),
                    _ => {
                        allowed &= values.iter().all(|id| current.contains(id));
                        current = values.to_vec();
                    }
                }
            }
            let mut db = Db::with(vec![(group("g", None), ids(&start))]);
            db.granted = ids(&["g"]);
            let operations = [first, second].map(|(op, values)| members_op(op, values)).into();
            let answer = db.patch("g", operations);
            assert_eq!(answer.is_ok(), allowed, "{first:?} {second:?}");
            assert_eq!(db.members("g"), ids(if allowed { &current } else { &start }), "{first:?} {second:?}");
        }
    }
}
