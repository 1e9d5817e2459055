use serde_json::Value;
use vaultwarden_scim::error::ScimError;
use vaultwarden_scim::json::{Json, Member};
use vaultwarden_scim::patch::{
    is_ignored_user_attribute, parse_group_patch, parse_members_filter_path, parse_user_patch,
    unsynced_attributes, GroupPatch, MemberOp, PatchOp, PatchOperation, UserPatch, PATCH_OP_URN,
};

fn to_json(value: &Value) -> Json {
    match value {
        Value::Null => Json::Null,
        Value::Bool(b) => Json::Bool(*b),
        Value::Number(n) => match n.as_i64() {
            Some(i) => Json::Integer(i as i128),
            None => Json::Fraction(n.to_string()),
        },
        Value::String(s) => Json::Text(s.clone()),
        Value::Array(items) => Json::Array(items.iter().map(to_json).collect()),
        Value::Object(map) => Json::Object(
            map.iter().map(|(name, value)| Member { name: name.clone(), value: to_json(value) }).collect(),
        ),
    }
}

fn patch_op(text: &str) -> PatchOp {
    let payload: Value = serde_json::from_str(text).expect("valid PatchOp json");
    let schemas = payload["schemas"].as_array().map_or(&[][..], |s| s.as_slice());
    let operations = payload["Operations"].as_array().map_or(&[][..], |o| o.as_slice());
    PatchOp {
        schemas: schemas.iter().map(|s| s.as_str().expect("schema").to_owned()).collect(),
        operations: operations
            .iter()
            .map(|o| PatchOperation {
                op: o["op"].as_str().expect("op").to_owned(),
                path: o["path"].as_str().map(str::to_owned),
                value: o.get("value").filter(|v| !v.is_null()).map(to_json),
            })
            .collect(),
    }
}

fn operations(text: &str) -> PatchOp {
    patch_op(&format!("{{\"schemas\": [\"{PATCH_OP_URN}\"], \"Operations\": {text}}}"))
}

fn user(text: &str) -> Result<UserPatch, ScimError> {
    parse_user_patch(&operations(text))
}

fn group(text: &str) -> Result<GroupPatch, ScimError> {
    parse_group_patch(&operations(text))
}

fn quoted(text: &str) -> String {
    Value::String(text.to_owned()).to_string()
}

fn ids(values: &[&str]) -> Vec<String> {
    values.iter().map(|v| (*v).to_owned()).collect()
}

#[test]
fn replace_active_with_path() {
    let parsed = user(r#"[{"op": "replace", "path": "active", "value": false}]"#).expect("expected parse to succeed");
    assert_eq!(parsed.active, Some(false));
}

#[test]
fn entra_casing_and_string_bool() {
    let parsed = user(r#"[{"op": "Replace", "path": "active", "value": "False"}]"#).expect("expected parse to succeed");
    assert_eq!(parsed.active, Some(false));
}

#[test]
fn pathless_value_object() {
    let parsed = user(r#"[{"op": "replace", "value": {"active": "True"}}]"#).expect("expected parse to succeed");
    assert_eq!(parsed.active, Some(true));
}

#[test]
fn entra_mapped_attributes_are_accepted_and_ignored() {
    for path in ["displayName", "name.givenName", "emails[type eq \"work\"].value", "title", "roles"] {
        let parsed = user(&format!(
            r#"[{{"op": "replace", "path": {}, "value": "whatever"}},
                {{"op": "replace", "path": "active", "value": true}}]"#,
            quoted(path)
        ))
        .unwrap_or_else(|_| panic!("path {path} must be ignored, not rejected"));
        assert_eq!(parsed.active, Some(true));
    }
}

#[test]
fn externalid_patch_both_forms() {
    let parsed = user(r#"[{"op": "replace", "path": "externalId", "value": "new-ext-1"}]"#).expect("valid");
    assert_eq!(parsed.external_id.as_deref(), Some("new-ext-1"));

    let parsed = user(r#"[{"op": "replace", "value": {"externalId": "new-ext-2", "displayName": "ignored"}}]"#)
        .expect("valid");
    assert_eq!(parsed.external_id.as_deref(), Some("new-ext-2"));
}

#[test]
fn remove_on_ignored_attributes_is_a_noop_not_an_error() {
    for path in ["displayName", "name.givenName", "title", "phoneNumbers", "roles"] {
        let parsed = user(&format!(
            r#"[{{"op": "Remove", "path": {}}}, {{"op": "replace", "path": "active", "value": false}}]"#,
            quoted(path)
        ))
        .unwrap_or_else(|_| panic!("remove on {path} must be ignored, not rejected"));
        assert_eq!(parsed.active, Some(false), "path {path}");
        assert_eq!(parsed.external_id, None, "path {path}");
    }
}

#[test]
fn remove_externalid_clears_it() {
    let parsed = user(r#"[{"op": "remove", "path": "externalId"}]"#).expect("remove externalId must parse");
    assert_eq!(parsed.external_id.as_deref(), Some(""));
}

#[test]
fn remove_without_a_path_is_no_target() {
    // RFC 7644 section 3.5.2.2.
    let err = user(r#"[{"op": "remove", "value": {"displayName": "x"}}]"#)
        .expect_err("remove without a path must be rejected");
    assert_eq!(err.scim_type, Some("noTarget"));
}

#[test]
fn rejects_bad_patches() {
    let urn = quoted(PATCH_OP_URN);
    let cases = [
        (
            r#"{"schemas": [], "Operations": [{"op": "replace", "path": "active", "value": true}]}"#.to_owned(),
            "invalidValue",
        ),
        (format!(r#"{{"schemas": [{urn}], "Operations": []}}"#), "invalidValue"),
        (
            format!(r#"{{"schemas": [{urn}], "Operations": [{{"op": "remove", "path": "active"}}]}}"#),
            "invalidValue",
        ),
        (
            format!(
                r#"{{"schemas": [{urn}], "Operations": [{{"op": "replace", "path": "wibble", "value": "x"}}]}}"#
            ),
            "invalidPath",
        ),
        (
            format!(
                r#"{{"schemas": [{urn}], "Operations": [{{"op": "replace", "path": "active", "value": "maybe"}}]}}"#
            ),
            "invalidValue",
        ),
        (
            format!(r#"{{"schemas": [{urn}], "Operations": [{{"op": "replace", "value": 3}}]}}"#),
            "invalidValue",
        ),
    ];
    for (payload, expected_type) in cases {
        match parse_user_patch(&patch_op(&payload)) {
            Err(e) => assert_eq!(e.scim_type, Some(expected_type), "wrong scimType for {payload}"),
            Ok(p) => panic!("patch {payload} unexpectedly parsed to {p:?}"),
        }
    }
}

#[test]
fn add_and_remove_member_value_lists() {
    let parsed = group(
        r#"[{"op": "Add", "path": "members", "value": [{"value": "member-1"}, {"value": "member-2"}]},
            {"op": "remove", "path": "members", "value": [{"value": "member-3"}]}]"#,
    )
    .expect("valid");
    assert_eq!(
        parsed.member_ops,
        vec![MemberOp::Add(ids(&["member-1", "member-2"])), MemberOp::Remove(ids(&["member-3"]))]
    );
}

#[test]
fn member_ops_keep_the_order_they_arrived_in() {
    // RFC 7644 section 3.5.2: operations apply in the order supplied.
    let remove_then_add = group(
        r#"[{"op": "remove", "path": "members", "value": [{"value": "m-1"}]},
            {"op": "add", "path": "members", "value": [{"value": "m-1"}]}]"#,
    )
    .expect("valid");
    assert_eq!(
        remove_then_add.member_ops,
        vec![MemberOp::Remove(ids(&["m-1"])), MemberOp::Add(ids(&["m-1"]))]
    );

    let add_then_remove = group(
        r#"[{"op": "add", "path": "members", "value": [{"value": "m-1"}]},
            {"op": "remove", "path": "members", "value": [{"value": "m-1"}]}]"#,
    )
    .expect("valid");
    assert_ne!(
        add_then_remove.member_ops, remove_then_add.member_ops,
        "order must be preserved, not bucketed"
    );
}

#[test]
fn a_replace_does_not_swallow_other_member_ops() {
    let parsed = group(
        r#"[{"op": "replace", "path": "members", "value": [{"value": "m-1"}]},
            {"op": "add", "path": "members", "value": [{"value": "m-2"}]}]"#,
    )
    .expect("valid");
    assert_eq!(parsed.member_ops, vec![MemberOp::Replace(ids(&["m-1"])), MemberOp::Add(ids(&["m-2"]))]);
}

#[test]
fn group_remove_clears_display_name_and_external_id() {
    let parsed = group(r#"[{"op": "remove", "path": "externalId", "value": "stale-value"}]"#).expect("valid");
    assert_eq!(parsed.external_id.as_deref(), Some(""), "remove must clear, not set");
}

#[test]
fn entra_filter_path_removal() {
    let parsed = group(r#"[{"op": "Remove", "path": "members[value eq \"member-9\"]"}]"#).expect("valid");
    assert_eq!(parsed.member_ops, vec![MemberOp::Remove(ids(&["member-9"]))]);
}

#[test]
fn filter_path_attribute_name_is_case_insensitive() {
    // RFC 7643 section 2.1: attribute names are case-insensitive.
    for path in ["Members[value eq \"m-1\"]", "MEMBERS[Value EQ \"m-1\"]"] {
        let parsed = group(&format!(r#"[{{"op": "Remove", "path": {}}}]"#, quoted(path)))
            .unwrap_or_else(|_| panic!("path {path} must parse"));
        assert_eq!(parsed.member_ops, vec![MemberOp::Remove(ids(&["m-1"]))], "path {path}");
    }
}

#[test]
fn replace_members_and_rename() {
    let parsed = group(
        r#"[{"op": "replace", "path": "members", "value": [{"value": "only-member"}]},
            {"op": "replace", "path": "displayName", "value": "New Group Name"}]"#,
    )
    .expect("valid");
    assert_eq!(parsed.member_ops, vec![MemberOp::Replace(ids(&["only-member"]))]);
    assert_eq!(parsed.display_name.as_deref(), Some("New Group Name"));
}

#[test]
fn group_patch_rejects_garbage() {
    for (payload, expected_type) in [
        (r#"[{"op": "remove", "path": "members[display eq \"x\"]"}]"#, "invalidPath"),
        (r#"[{"op": "add", "path": "members", "value": ["bare-string"]}]"#, "invalidValue"),
        (r#"[{"op": "add", "path": "wibble", "value": 1}]"#, "invalidPath"),
    ] {
        match group(payload) {
            Err(e) => assert_eq!(e.scim_type, Some(expected_type), "wrong scimType for {payload}"),
            Ok(p) => panic!("group patch {payload} unexpectedly parsed to {p:?}"),
        }
    }
}

#[test]
fn a_filtered_replace_adds_one_member_rather_than_replacing_the_set() {
    for op in ["replace", "Replace", "REPLACE"] {
        let parsed = group(&format!(r#"[{{"op": {}, "path": "members[value eq \"m-1\"]"}}]"#, quoted(op)))
            .unwrap_or_else(|_| panic!("op {op} must parse"));
        assert_eq!(
            parsed.member_ops,
            vec![MemberOp::Add(ids(&["m-1"]))],
            "a filtered {op} targets one member, so it must not replace the whole set"
        );
    }
}

#[test]
fn enterprise_extension_attributes_are_accepted_and_ignored() {
    const ENTERPRISE: &str = "urn:ietf:params:scim:schemas:extension:enterprise:2.0:User";
    for attribute in ["department", "manager", "employeeNumber", "costCenter", "organization"] {
        let path = format!("{ENTERPRISE}:{attribute}");
        let parsed = user(&format!(
            r#"[{{"op": "replace", "path": {}, "value": "anything"}},
                {{"op": "replace", "path": "active", "value": false}}]"#,
            quoted(&path)
        ))
        .unwrap_or_else(|_| panic!("{path} must be ignored, not rejected"));
        assert_eq!(parsed.active, Some(false), "path {path}");
        assert_eq!(parsed.external_id, None, "path {path}");
    }
}

#[test]
fn ignored_attributes_are_also_tolerated_in_the_path_less_form() {
    let parsed = user(
        r#"[{"op": "replace", "value": {
            "urn:ietf:params:scim:schemas:extension:enterprise:2.0:User:department": "Engineering",
            "displayName": "Ignored Name",
            "preferredLanguage": "en-AU",
            "active": false
        }}]"#,
    )
    .expect("a path-less patch of ignored attributes plus active must parse");
    assert_eq!(parsed.active, Some(false));
    assert_eq!(parsed.external_id, None);
}

#[test]
fn later_operations_win_and_earlier_ones_stand_where_they_are_silent() {
    let parsed = user(
        r#"[{"op": "replace", "path": "active", "value": true},
            {"op": "replace", "path": "externalId", "value": "e-1"},
            {"op": "replace", "path": "ACTIVE", "value": "fAlSe"}]"#,
    )
    .expect("valid");
    assert_eq!(parsed, UserPatch { active: Some(false), external_id: Some("e-1".to_owned()) });
}

#[test]
fn every_user_patch_error_has_its_detail() {
    for (payload, scim_type, detail) in [
        (r#"[{"op": "move", "path": "active", "value": true}]"#, "invalidValue", "Unsupported patch operation"),
        (
            r#"[{"op": "remove", "path": "active"}]"#,
            "invalidValue",
            "active cannot be removed, set it to false",
        ),
        (r#"[{"op": "add", "path": "active"}]"#, "invalidValue", "Expected a boolean value for active"),
        (r#"[{"op": "add", "path": "externalId", "value": 1}]"#, "invalidValue", "externalId must be a string"),
        (r#"[{"op": "add", "path": "x", "value": 1}]"#, "invalidPath", "Unsupported patch path"),
        (r#"[{"op": "add", "value": {"x": 1}}]"#, "invalidPath", "Unsupported patch attribute"),
        (
            r#"[{"op": "add", "value": [1]}]"#,
            "invalidValue",
            "Operation without path must carry an object value",
        ),
        (r#"[{"op": "remove"}]"#, "noTarget", "A remove operation must carry a path"),
    ] {
        let e = user(payload).expect_err("must be refused");
        assert_eq!((e.status.code, e.scim_type, e.detail.as_str()), (400, Some(scim_type), detail), "{payload}");
    }
    let e = parse_user_patch(&patch_op("{}")).expect_err("no schema");
    assert_eq!(e.detail, "Missing PatchOp schema");
    let e = user("[]").expect_err("no operations");
    assert_eq!(e.detail, "No operations provided");
}

#[test]
fn every_group_patch_error_has_its_detail() {
    for (payload, scim_type, detail) in [
        (
            r#"[{"op": "move", "path": "members", "value": [{"value": "m"}]}]"#,
            "invalidValue",
            "Unsupported operation on members",
        ),
        (
            r#"[{"op": "move", "path": "members", "value": 1}]"#,
            "invalidValue",
            "members value must be an array of {value} objects",
        ),
        (r#"[{"op": "move", "path": "displayName"}]"#, "invalidValue", "Unsupported operation on displayName"),
        (r#"[{"op": "add", "path": "externalId", "value": 1}]"#, "invalidValue", "externalId must be a string"),
        (r#"[{"op": "add", "path": "members[", "value": 1}]"#, "invalidPath", "Unsupported members filter path"),
        (r#"[{"op": "add", "path": "x"}]"#, "invalidPath", "Unsupported patch path for Groups"),
        (r#"[{"op": "add", "value": {"x": 1}}]"#, "invalidPath", "Unsupported patch attribute for Groups"),
        (r#"[{"op": "remove", "value": {}}]"#, "noTarget", "A remove operation must carry a path"),
        (
            r#"[{"op": "add"}]"#,
            "invalidValue",
            "Operation without path must carry an object value",
        ),
    ] {
        let e = group(payload).expect_err("must be refused");
        assert_eq!((e.status.code, e.scim_type, e.detail.as_str()), (400, Some(scim_type), detail), "{payload}");
    }
}

#[test]
fn a_single_member_object_and_the_path_less_form_are_understood() {
    let parsed = group(r#"[{"op": "add", "path": "members", "value": {"value": "m-1"}}]"#).expect("valid");
    assert_eq!(parsed.member_ops, vec![MemberOp::Add(ids(&["m-1"]))]);

    let parsed = group(
        r#"[{"op": "Replace", "value": {"displayName": "N", "externalId": "E", "members": [{"value": "m"}]}}]"#,
    )
    .expect("valid");
    assert_eq!(
        parsed,
        GroupPatch {
            display_name: Some("N".to_owned()),
            external_id: Some("E".to_owned()),
            member_ops: vec![MemberOp::Replace(ids(&["m"]))],
        }
    );
    // An empty object asks for nothing, under any operation.
    let parsed = group(r#"[{"op": "move", "value": {}}]"#).expect("valid");
    assert_eq!(parsed.member_ops, vec![]);
}

#[test]
fn member_values_are_counted_across_operations() {
    let parsed = group(
        r#"[{"op": "add", "path": "members", "value": [{"value": "a"}, {"value": "b"}]},
            {"op": "remove", "path": "members", "value": []},
            {"op": "replace", "path": "members", "value": [{"value": "a"}]}]"#,
    )
    .expect("valid");
    assert_eq!(parsed.member_count(), 3);
    assert_eq!(parsed.member_ops[0].values(), &ids(&["a", "b"]));
    assert!(parsed.member_ops[1].values().is_empty());
}

#[test]
fn filter_paths_round_trip_any_id_without_a_quote() {
    for id in ["m", "a b", "] x", "\u{3000}é🙂", "value eq y"] {
        let path = format!("members[value eq \"{id}\"]");
        assert_eq!(parse_members_filter_path(&path).as_deref(), Some(id), "{path}");
    }
    for path in [
        "members[value eq \"\"]",
        "members[value eq \"]",
        "members[value eq \"\"\"]",
        "members[value eq \"value eq \"y\"\"]",
        "members[value eq \"a\" or value eq \"b\"]",
        "members[value eq \"a\"\"b\"]",
        "members[value eq x]",
        "members[valueeq \"x\"]",
        "members[value  ne \"x\"]",
        "member[value eq \"x\"]",
        "members[value eq \"x\"",
        "members[]",
        "members[",
        "",
    ] {
        assert_eq!(parse_members_filter_path(path), None, "{path}");
    }
    // Any white space separates the words.
    assert_eq!(
        parse_members_filter_path("MEMBERS[value\t  eq\u{a0}\u{2003}\"x\" \n]").as_deref(),
        Some("x")
    );
}

#[test]
fn unsynced_names_match_in_any_casing() {
    for path in ["PHONENUMBERS[type eq \"work\"]", "Name.Formatted", "Addresses", "EMAILS", "userNAME"] {
        assert!(is_ignored_user_attribute(path), "{path}");
    }
    for path in ["nickName", "active", "emails.value", "name_", "", "Éname", "displayname "] {
        assert!(!is_ignored_user_attribute(path), "{path}");
    }
}

#[test]
fn writes_that_are_not_applied_are_listed() {
    let patch = operations(
        r#"[{"op": "replace", "path": "Title", "value": "x"},
            {"op": "replace", "value": {"active": true, "displayName": "y", "roles": []}},
            {"op": "replace", "path": "externalId", "value": "z"}]"#,
    );
    assert_eq!(unsynced_attributes(&patch), ids(&["Title", "displayName", "roles"]));
}

#[test]
fn a_filter_path_that_names_two_members_is_refused() {
    for op in ["remove", "add", "replace"] {
        let path = r#"members[value eq \"a\" or value eq \"b\"]"#;
        let e = group(&format!(r#"[{{"op": "{op}", "path": "{path}"}}]"#)).expect_err("ambiguous");
        assert_eq!((e.status.code, e.scim_type), (400, Some("invalidPath")), "{op}");
    }
}
