use vaultwarden_scim::account::User;
use vaultwarden_scim::discovery::{
    resource_type, resource_types, schema, schemas, service_provider_config, GROUP_SCHEMA_URN, USER_SCHEMA_URN,
};
use vaultwarden_scim::error::Status;
use vaultwarden_scim::group::Group;
use vaultwarden_scim::json::Json;
use vaultwarden_scim::listing::{
    list_groups, list_users, select_named, total_of, GroupListParams, GroupSource, GroupUser, ListParams, UserSource,
};
use vaultwarden_scim::membership::Membership;
use vaultwarden_scim::models::{ScimBool, ScimEmail, ScimName, ScimUserRequest};
use vaultwarden_scim::scim::{
    catch_status, check_attribute_len, list_response, page, page_bounds, resource_location, ScimResponse, SCIM_ACTOR,
};
use vaultwarden_scim::test_support::{hermetic_dir, init_hermetic_env};
use vaultwarden_scim::users::Site;

fn site() -> Site {
    Site { domain: "https://vault".to_owned(), org_uuid: "org".to_owned(), mail_enabled: true }
}

fn get<'a>(json: &'a Json, path: &[&str]) -> &'a Json {
    path.iter().fold(json, |json, name| json.get(name).expect("field"))
}

fn text_at<'a>(json: &'a Json, path: &[&str]) -> &'a str {
    match get(json, path) {
        Json::Text(text) => text,
        other => panic!("not a text: {other:?}"),
    }
}

fn integer_at(json: &Json, path: &[&str]) -> i128 {
    match get(json, path) {
        Json::Integer(n) => *n,
        other => panic!("not an integer: {other:?}"),
    }
}

fn body(response: &ScimResponse) -> &Json {
    response.body.as_ref().expect("body")
}

fn resources(response: &ScimResponse) -> &Vec<Json> {
    match body(response).get("Resources") {
        Some(Json::Array(items)) => items,
        _ => panic!("a list must have Resources"),
    }
}

fn same(a: &Json, b: &Json) -> bool {
    format!("{a:?}") == format!("{b:?}")
}

fn member(id: &str, user: &str) -> Membership {
    let mut member = Membership::new(id.to_owned(), user.to_owned(), "org".to_owned(), None);
    member.status = 2;
    member
}

fn user(id: &str) -> User {
    User { uuid: id.to_owned(), email: format!("{id}@x.y"), name: format!("Name {id}"), password_hash: vec![1] }
}

fn group(id: &str, name: &str) -> Group {
    Group::new(id.to_owned(), "org".to_owned(), name.to_owned(), false, None, "then".to_owned())
}

fn params(filter: Option<&str>, start_index: Option<i64>, count: Option<i64>) -> ListParams {
    ListParams { filter: filter.map(str::to_owned), start_index, count }
}

fn group_params(filter: Option<&str>, excluded: Option<&str>) -> GroupListParams {
    GroupListParams {
        filter: filter.map(str::to_owned),
        start_index: None,
        count: None,
        excluded_attributes: excluded.map(str::to_owned),
    }
}

#[test]
fn paging_parameters_are_clamped() {
    assert_eq!(page_bounds(None, None), (1, 100));
    assert_eq!(page_bounds(Some(0), Some(0)), (1, 0));
    assert_eq!(page_bounds(Some(-5), Some(-5)), (1, 0));
    assert_eq!(page_bounds(Some(7), Some(200)), (7, 200));
    assert_eq!(page_bounds(Some(i64::MAX), Some(201)), (i64::MAX as usize, 200));
    assert_eq!(page_bounds(Some(i64::MIN), Some(i64::MAX)), (1, 200));
}

#[test]
fn pages_neither_skip_nor_repeat() {
    let all: Vec<u32> = (0..10).collect();
    let mut seen = vec![];
    for start in [1, 4, 7, 10] {
        seen.extend(page(all.clone(), start, 3));
    }
    assert_eq!(seen, all);
    assert_eq!(page(all.clone(), 11, 3), Vec::<u32>::new());
    assert_eq!(page(all.clone(), usize::MAX, usize::MAX), Vec::<u32>::new());
    assert_eq!(page(all, 9, usize::MAX), [8, 9]);
}

#[test]
fn attribute_lengths_are_counted_in_characters() {
    assert!(check_attribute_len("userName", "ééé", 3).is_ok());
    let e = check_attribute_len("userName", "éééé", 3).expect_err("too long");
    assert_eq!((e.status.code, e.scim_type), (400, Some("invalidValue")));
    assert_eq!(e.detail, "userName must be at most 3 characters");
}

#[test]
fn the_actor_has_the_length_of_a_uuid() {
    assert_eq!(SCIM_ACTOR.len(), 36);
}

#[test]
fn lists_say_how_many_there_are() {
    let answer = list_response(7, 3, vec![Json::Null, Json::Null]);
    assert_eq!(integer_at(body(&answer), &["totalResults"]), 7);
    assert_eq!(integer_at(body(&answer), &["startIndex"]), 3);
    assert_eq!(integer_at(body(&answer), &["itemsPerPage"]), 2);
    assert_eq!(resource_location("https://v", "o", "Users", "i"), "https://v/scim/v2/o/Users/i");
    assert_eq!((total_of(5), total_of(-1)), (5, 0));
}

#[test]
fn every_caught_status_is_answered_in_the_protocol() {
    for (code, answered, scim_type, detail) in [
        (400, 400, Some("invalidValue"), "Bad request"),
        (401, 401, None, "Unauthorized"),
        (404, 404, None, "Resource not found"),
        (405, 405, None, "Method Not Allowed"),
        (413, 413, None, "Payload too large"),
        (422, 400, Some("invalidValue"), "Malformed request parameter"),
        (429, 429, None, "Too many requests"),
        (500, 500, None, "Internal server error"),
        (503, 503, None, "Service Unavailable"),
    ] {
        let e = catch_status(Status { code }, 9);
        assert_eq!((e.status.code, e.scim_type, e.detail.as_str()), (answered, scim_type, detail), "{code}");
        assert_eq!(e.retry_after, (code == 429).then_some(9), "{code}");
    }
}

#[test]
fn member_lists_are_paged_or_filtered() {
    let listing = list_users(params(None, Some(3), Some(2))).expect("listing");
    assert!(matches!(listing.source, UserSource::Page { limit: 2, offset: 2 }));
    for filter in ["userName eq \"A@x.y\"", "emails.value EQ \"A@x.y\""] {
        let listing = list_users(params(Some(filter), None, None)).expect("listing");
        assert!(matches!(listing.source, UserSource::ByMail(mail) if mail == "A@x.y"), "{filter}");
    }
    let listing = list_users(params(Some("externalId eq \"e\""), None, None)).expect("listing");
    assert!(matches!(listing.source, UserSource::ByExternalId(id) if id == "e"));
    for filter in ["displayName eq \"x\"", "userName co \"x\"", "nonsense"] {
        let e = list_users(params(Some(filter), None, None)).expect_err("unsupported");
        assert_eq!((e.status.code, e.scim_type), (400, Some("invalidFilter")), "{filter}");
    }
}

#[test]
fn member_lists_show_every_member_or_fail() {
    let listing = list_users(params(None, None, None)).expect("listing");
    let page = vec![member("m", "u"), member("n", "v")];
    let answer = listing.respond(9, &page, &vec![user("v"), user("u")], &site()).expect("answer");
    let shown: Vec<&str> = resources(&answer).iter().map(|r| text_at(r, &["userName"])).collect();
    assert_eq!(shown, ["u@x.y", "v@x.y"], "each member has its own account, in the page's order");
    assert_eq!(integer_at(body(&answer), &["totalResults"]), 9);
    let e = listing.respond(2, &page, &vec![user("u")], &site()).expect_err("dangling");
    assert_eq!(e.status.code, 500);

    let listing = list_users(params(Some("externalId eq \"e\""), Some(2), None)).expect("listing");
    let (total, page) = listing.select(vec![member("m", "u")]);
    assert_eq!((total, page.len()), (1, 0), "a filter's result is paged too");
}

#[test]
fn group_lists_match_names_in_any_casing() {
    let listing = list_groups(true, group_params(Some("displayName eq \"ENG\""), None)).expect("listing");
    assert!(matches!(&listing.source, GroupSource::ByName(name) if name == "ENG"));
    let groups = vec![group("a", "Eng"), group("b", "Other"), group("c", "eng")];
    let matched = select_named(&groups, "ENG");
    let ids: Vec<&str> = matched.iter().map(|g| g.uuid.as_str()).collect();
    assert_eq!(ids, ["a", "c"]);
    let (total, page) = listing.select(matched);
    let rows = vec![
        GroupUser { groups_uuid: "c".to_owned(), users_organizations_uuid: "m".to_owned() },
        GroupUser { groups_uuid: "b".to_owned(), users_organizations_uuid: "n".to_owned() },
    ];
    let answer = listing.respond(total, &page, &rows, &site());
    let members: Vec<usize> = resources(&answer)
        .iter()
        .map(|r| match r.get("members") {
            Some(Json::Array(items)) => items.len(),
            _ => panic!("members must be shown"),
        })
        .collect();
    assert_eq!(members, [0, 1]);
    assert!(list_groups(true, group_params(Some("userName eq \"x\""), None)).is_err());
    assert_eq!(list_groups(false, group_params(None, None)).expect_err("off").status.code, 501);
}

#[test]
fn group_lists_leave_excluded_members_out() {
    let listing = list_groups(true, group_params(None, Some("meta,members"))).expect("listing");
    let answer = listing.respond(1, &vec![group("a", "A")], &vec![], &site());
    assert!(resources(&answer)[0].get("members").is_none());
    let listing = list_groups(true, group_params(None, Some("meta"))).expect("listing");
    let answer = listing.respond(1, &vec![group("a", "A")], &vec![], &site());
    assert!(resources(&answer)[0].get("members").is_some());
}

#[test]
fn advertised_locations_resolve_to_what_was_listed() {
    for groups_on in [false, true] {
        let types = resource_types("https://v", "o", groups_on);
        assert_eq!(resources(&types).len(), 1 + usize::from(groups_on));
        for listed in resources(&types) {
            let id = text_at(listed, &["id"]);
            assert_eq!(text_at(listed, &["meta", "location"]), format!("https://v/scim/v2/o/ResourceTypes/{id}"));
            let single = resource_type(id, "https://v", "o", groups_on).expect("advertised");
            assert!(same(body(&single), listed));
            assert!(schema(text_at(listed, &["schema"]), "https://v", "o", groups_on).is_ok());
        }
        let all = schemas("https://v", "o", groups_on);
        assert_eq!(resources(&all).len(), 1 + usize::from(groups_on));
        for listed in resources(&all) {
            let id = text_at(listed, &["id"]);
            assert_eq!(text_at(listed, &["meta", "location"]), format!("https://v/scim/v2/o/Schemas/{id}"));
            let single = schema(id, "https://v", "o", groups_on).expect("advertised");
            assert!(same(body(&single), listed));
        }
        assert_eq!(resource_type("Group", "https://v", "o", groups_on).is_ok(), groups_on);
        assert_eq!(schema(GROUP_SCHEMA_URN, "https://v", "o", groups_on).is_ok(), groups_on);
    }
    assert_eq!(resource_type("Nope", "https://v", "o", true).expect_err("unknown").status.code, 404);
    assert_eq!(schema("urn:nope", "https://v", "o", true).expect_err("unknown").status.code, 404);
}

#[test]
fn the_configuration_is_advertised() {
    let config = service_provider_config("https://v", "o");
    let config = body(&config);
    assert!(matches!(get(config, &["patch", "supported"]), Json::Bool(true)));
    assert!(matches!(get(config, &["bulk", "supported"]), Json::Bool(false)));
    assert_eq!(integer_at(config, &["filter", "maxResults"]), 200);
    assert_eq!(text_at(config, &["meta", "location"]), "https://v/scim/v2/o/ServiceProviderConfig");
    let answer = schema(USER_SCHEMA_URN, "https://v", "o", true).expect("schema");
    match get(body(&answer), &["attributes"]) {
        Json::Array(attributes) => {
            let names: Vec<&str> = attributes.iter().map(|a| text_at(a, &["name"])).collect();
            assert_eq!(names, ["userName", "displayName", "name", "emails", "active"]);
        }
        other => panic!("not a list: {other:?}"),
    }
}

#[test]
fn names_are_composed_of_what_is_there() {
    let request = |display: Option<&str>, formatted: Option<&str>, given: Option<&str>, family: Option<&str>| {
        let own = |s: Option<&str>| s.map(str::to_owned);
        ScimUserRequest {
            user_name: None,
            display_name: own(display),
            name: Some(ScimName { formatted: own(formatted), given_name: own(given), family_name: own(family) }),
            emails: vec![],
            external_id: None,
            active: None,
        }
        .display_name()
    };
    assert_eq!(request(Some("D"), Some("F"), Some("G"), Some("L")).as_deref(), Some("D"));
    assert_eq!(request(Some(""), Some("F"), Some("G"), Some("L")).as_deref(), Some("F"));
    assert_eq!(request(None, None, Some("G"), Some("L")).as_deref(), Some("G L"));
    assert_eq!(request(None, None, Some("G"), None).as_deref(), Some("G"));
    assert_eq!(request(None, None, Some(""), Some("L")).as_deref(), Some("L"));
    assert_eq!(request(None, None, None, None), None);
}

#[test]
fn only_a_primary_address_stands_in_for_the_user_name() {
    let request = |user_name: Option<&str>, primary: bool| {
        ScimUserRequest {
            user_name: user_name.map(str::to_owned),
            display_name: None,
            name: None,
            emails: vec![ScimEmail { value: "mail@x.y".to_owned(), primary }],
            external_id: None,
            active: None,
        }
        .email()
    };
    assert_eq!(request(Some("user@x.y"), true).as_deref(), Some("user@x.y"));
    assert_eq!(request(Some("user"), true).as_deref(), Some("mail@x.y"));
    assert_eq!(request(None, false), None);
}

#[test]
fn booleans_may_be_written_as_text() {
    let read = |json: Json| ScimBool::from_json(&json).map(|b| b.0);
    assert_eq!(read(Json::Bool(true)), Some(true));
    assert_eq!(read(Json::text("True")), Some(true));
    assert_eq!(read(Json::text("FALSE")), Some(false));
    assert_eq!(read(Json::text("yes")), None);
    assert_eq!(read(Json::Integer(1)), None);
}

#[test]
fn the_suite_pins_its_environment() {
    let env = init_hermetic_env("/t/.env", "/t/data", &vec![]);
    let value = |name: &str| env.set.iter().find(|var| var.name == name).map(|var| var.value.as_str());
    assert_eq!(value("ENV_FILE"), Some("/t/.env"));
    assert_eq!(value("DATA_FOLDER"), Some("/t/data"));
    assert_eq!(value("SCIM_ENABLED"), Some("true"));
    assert_eq!(value("SSO_ONLY"), Some("false"));
    assert_eq!(value("SMTP_HOST"), Some("smtp.invalid"));
    assert_eq!(value("DATABASE_URL"), None);
    assert_eq!(env.unset, ["USE_SENDMAIL", "SENDMAIL_COMMAND"]);
    // A caller may only pick the branch of SSO_ONLY.
    let present = vec!["SSO_ONLY".to_owned(), "SCIM_ENABLED".to_owned()];
    let env = init_hermetic_env("e", "d", &present);
    assert!(env.set.iter().all(|var| var.name != "SSO_ONLY"));
    assert!(env.set.iter().any(|var| var.name == "SCIM_ENABLED"));
    assert_eq!(hermetic_dir(4242), "vaultwarden-test-4242");
}

#[test]
fn letters_outside_ascii_hardly_ever_lower_into_ascii() {
    // Attribute names are compared by their ASCII letters; no name holds a letter that these
    // two could stand for.
    let odd: Vec<char> =
        ('\u{80}'..=char::MAX).filter(|c| c.to_lowercase().any(|lower| lower.is_ascii())).collect();
    assert_eq!(odd, ['\u{130}', '\u{212a}']);
}

#[test]
fn addresses_are_lowered_in_every_script() {
    let account = |email: &str| User::new("u".to_owned(), email, None).email;
    assert_eq!(account("MixeD@Example.COM"), "mixed@example.com");
    assert_eq!(account("ÜBER@Σ.example"), "über@σ.example");
}

#[test]
fn user_walks_show_everybody_once() {
    let members: Vec<Membership> = (0..25).map(|n| member(&format!("m{n}"), &format!("u{n}"))).collect();
    let users: Vec<User> = (0..25).map(|n| user(&format!("u{n}"))).collect();
    let (mut seen, mut start) = (vec![], 1);
    loop {
        let listing = list_users(params(None, Some(start), Some(10))).expect("listing");
        let UserSource::Page { limit, offset } = listing.source else { panic!("no filter") };
        let rows = members.iter().skip(offset as usize).take(limit as usize).map(Membership::copy).collect();
        let answer = listing.respond(members.len(), &rows, &users, &site()).expect("answer");
        assert_eq!(integer_at(body(&answer), &["totalResults"]), 25);
        assert_eq!(integer_at(body(&answer), &["startIndex"]), i128::from(start));
        assert_eq!(integer_at(body(&answer), &["itemsPerPage"]), resources(&answer).len() as i128);
        if resources(&answer).is_empty() {
            break;
        }
        seen.extend(resources(&answer).iter().map(|shown| text_at(shown, &["id"]).to_owned()));
        start += 10;
    }
    let expected: Vec<String> = members.iter().map(|member| member.uuid.clone()).collect();
    assert_eq!(seen, expected, "paging must not skip or repeat a member");
    assert_eq!(start, 31);
}
