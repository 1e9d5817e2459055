//! What a client reads in the bodies it gets: members, groups, lists and errors.

use vstd::prelude::*;

use crate::account::UserView;
use crate::error::{reason_phrase, ScimErrorView};
use crate::group::GroupView;
use crate::groups::scim_group;
use crate::json::{first_named, JsonView, MemberView};
use crate::membership::MembershipView;
use crate::scim::{caught_error, list_body, ScimResponseView};
use crate::users::{scim_user, SiteView};

verus! {

/// Looking a name up finds the value that stands first under it.
pub proof fn lemma_first_named(members: Seq<MemberView>, name: Seq<char>, at: int)
    requires
        0 <= at < members.len(),
        members[at].name == name,
        forall|j: int| 0 <= j < at ==> (#[trigger] members[j]).name != name,
    ensures
        first_named(members, name) == Some(members[at].value),
    decreases members.len(),
{
    if at > 0 {
        assert(members[0].name != name);
        let rest = members.drop_first();
        assert(rest[at - 1] == members[at]);
        assert forall|j: int| 0 <= j < at - 1 implies (#[trigger] rest[j]).name != name by {
            assert(rest[j] == members[j + 1]);
        }
        lemma_first_named(rest, name, at - 1);
    }
}

/// Looking a name up finds nothing where no member has it.
pub proof fn lemma_not_named(members: Seq<MemberView>, name: Seq<char>)
    requires
        forall|j: int| 0 <= j < members.len() ==> (#[trigger] members[j]).name != name,
    ensures
        first_named(members, name) is None,
    decreases members.len(),
{
    if members.len() > 0 {
        assert(members[0].name != name);
        let rest = members.drop_first();
        assert forall|j: int| 0 <= j < rest.len() implies (#[trigger] rest[j]).name != name by {
            assert(rest[j] == members[j + 1]);
        }
        lemma_not_named(rest, name);
    }
}

/// Whether a value is an object of so many members.
pub open spec fn has_members(value: JsonView, n: nat) -> bool {
    value matches JsonView::Object(members) && members.len() == n
}

/// Whether a value is a text.
pub open spec fn is_text(value: Option<JsonView>, text: Seq<char>) -> bool {
    value == Some(JsonView::Text(text))
}

proof fn lemma_member_names()
    ensures
        "schemas"@.len() == 7 && "schemas"@[0] == 's',
        "id"@.len() == 2,
        "externalId"@.len() == 10 && "externalId"@[0] == 'e',
        "userName"@.len() == 8 && "userName"@[0] == 'u',
        "displayName"@.len() == 11 && "displayName"@[0] == 'd',
        "active"@.len() == 6 && "active"@[0] == 'a',
        "emails"@.len() == 6 && "emails"@[0] == 'e',
        "meta"@.len() == 4 && "meta"@[0] == 'm',
        "members"@.len() == 7 && "members"@[0] == 'm',
        "value"@.len() == 5 && "value"@[0] == 'v',
        "primary"@.len() == 7 && "primary"@[0] == 'p',
        "type"@.len() == 4 && "type"@[0] == 't',
        "resourceType"@.len() == 12 && "resourceType"@[0] == 'r',
        "location"@.len() == 8 && "location"@[0] == 'l',
        "created"@.len() == 7 && "created"@[0] == 'c',
        "lastModified"@.len() == 12 && "lastModified"@[0] == 'l',
        "totalResults"@.len() == 12 && "totalResults"@[0] == 't',
        "itemsPerPage"@.len() == 12 && "itemsPerPage"@[0] == 'i',
        "startIndex"@.len() == 10 && "startIndex"@[0] == 's',
        "Resources"@.len() == 9 && "Resources"@[0] == 'R',
{
    reveal_strlit("schemas");
    reveal_strlit("id");
    reveal_strlit("externalId");
    reveal_strlit("userName");
    reveal_strlit("displayName");
    reveal_strlit("active");
    reveal_strlit("emails");
    reveal_strlit("meta");
    reveal_strlit("members");
    reveal_strlit("value");
    reveal_strlit("primary");
    reveal_strlit("type");
    reveal_strlit("resourceType");
    reveal_strlit("location");
    reveal_strlit("created");
    reveal_strlit("lastModified");
    reveal_strlit("totalResults");
    reveal_strlit("itemsPerPage");
    reveal_strlit("startIndex");
    reveal_strlit("Resources");
}

/// A member is shown under its own id, and with the externalId it has, which is null where it
/// has none.
pub proof fn law_users_show_their_ids(member: MembershipView, user: UserView, site: SiteView)
    ensures
        is_text(scim_user(member, user, site).get("id"@), member.uuid),
        scim_user(member, user, site).get("externalId"@) == Some(
            match member.external_id {
                Some(id) => JsonView::Text(id),
                None => JsonView::Null,
            },
        ),
        scim_user(member, user, site).get("schemas"@) == Some(
            JsonView::Array(
                seq![JsonView::Text("urn:ietf:params:scim:schemas:core:2.0:User"@)],
            ),
        ),
        has_members(scim_user(member, user, site), 8),
{
    lemma_member_names();
    let shown = scim_user(member, user, site)->Object_0;
    lemma_first_named(shown, "schemas"@, 0);
    lemma_first_named(shown, "id"@, 1);
    lemma_first_named(shown, "externalId"@, 2);
    assert(shown[0].value->Array_0 =~= seq![
        JsonView::Text("urn:ietf:params:scim:schemas:core:2.0:User"@),
    ]);
}

/// A member is shown with the address and the name of its account: userName is the address,
/// and emails is one primary address, the same text.
pub proof fn law_users_show_their_accounts(member: MembershipView, user: UserView, site: SiteView)
    ensures
        is_text(scim_user(member, user, site).get("userName"@), user.email),
        is_text(scim_user(member, user, site).get("displayName"@), user.name),
        scim_user(member, user, site).get("emails"@) matches Some(JsonView::Array(emails))
            && emails.len() == 1 && has_members(emails[0], 3) && is_text(
            emails[0].get("value"@),
            user.email,
        ) && emails[0].get("primary"@) == Some(JsonView::Bool(true)) && is_text(
            emails[0].get("type"@),
            "work"@,
        ),
        scim_user(member, user, site).get("emails"@) matches Some(JsonView::Array(emails))
            && emails[0].get("value"@) == scim_user(member, user, site).get("userName"@),
{
    lemma_member_names();
    let shown = scim_user(member, user, site)->Object_0;
    lemma_first_named(shown, "userName"@, 3);
    lemma_first_named(shown, "displayName"@, 4);
    lemma_first_named(shown, "emails"@, 6);
    let email = shown[6].value->Array_0[0]->Object_0;
    lemma_first_named(email, "value"@, 0);
    lemma_first_named(email, "primary"@, 1);
    lemma_first_named(email, "type"@, 2);
}

/// A member is shown as active exactly where its status is not a revoked one, and where it can
/// be found.
pub proof fn law_users_show_their_state(member: MembershipView, user: UserView, site: SiteView)
    ensures
        scim_user(member, user, site).get("active"@) == Some(JsonView::Bool(member.status >= 0)),
        scim_user(member, user, site).get("meta"@) matches Some(meta) && has_members(meta, 2)
            && is_text(meta.get("resourceType"@), "User"@) && is_text(
            meta.get("location"@),
            site.domain + "/scim/v2/"@ + site.org_uuid + "/"@ + "Users"@ + "/"@ + member.uuid,
        ),
{
    lemma_member_names();
    let shown = scim_user(member, user, site)->Object_0;
    lemma_first_named(shown, "active"@, 5);
    lemma_first_named(shown, "meta"@, 7);
    let meta = shown[7].value->Object_0;
    lemma_first_named(meta, "resourceType"@, 0);
    lemma_first_named(meta, "location"@, 1);
}

proof fn lemma_group_parts(group: GroupView, site: SiteView, members: Option<Seq<Seq<char>>>)
    ensures
        ({
            let shown = scim_group(group, site, members)->Object_0;
            &&& shown.len() == 4 + (if group.external_id is Some {
                1int
            } else {
                0int
            }) + (if members is Some {
                1int
            } else {
                0int
            })
            &&& shown[0].name == "schemas"@ && shown[1].name == "id"@ && shown[2].name
                == "displayName"@ && shown[3].name == "meta"@
            &&& group.external_id matches Some(id) ==> shown[4].name == "externalId"@
                && shown[4].value == JsonView::Text(id)
            &&& members is Some ==> shown[shown.len() - 1].name == "members"@
        }),
{
}

/// A group is shown under its own id and name, with its externalId exactly where it has one.
pub proof fn law_groups_show_their_ids(
    group: GroupView,
    site: SiteView,
    members: Option<Seq<Seq<char>>>,
)
    ensures
        is_text(scim_group(group, site, members).get("id"@), group.uuid),
        is_text(scim_group(group, site, members).get("displayName"@), group.name),
        scim_group(group, site, members).get("externalId"@) == (match group.external_id {
            Some(id) => Some(JsonView::Text(id)),
            None => None,
        }),
        scim_group(group, site, members).get("schemas"@) == Some(
            JsonView::Array(
                seq![JsonView::Text("urn:ietf:params:scim:schemas:core:2.0:Group"@)],
            ),
        ),
        has_members(
            scim_group(group, site, members),
            (4 + (if group.external_id is Some {
                1int
            } else {
                0int
            }) + (if members is Some {
                1int
            } else {
                0int
            })) as nat,
        ),
{
    lemma_member_names();
    lemma_group_parts(group, site, members);
    let shown = scim_group(group, site, members)->Object_0;
    lemma_first_named(shown, "schemas"@, 0);
    lemma_first_named(shown, "id"@, 1);
    lemma_first_named(shown, "displayName"@, 2);
    if group.external_id is Some {
        lemma_first_named(shown, "externalId"@, 4);
    } else {
        lemma_not_named(shown, "externalId"@);
    }
    assert(shown[0].value->Array_0 =~= seq![
        JsonView::Text("urn:ietf:params:scim:schemas:core:2.0:Group"@),
    ]);
}

/// A group is shown with exactly its members, each under its own id, where they were asked
/// for, and without a list of members where they were not.
pub proof fn law_groups_show_their_members(
    group: GroupView,
    site: SiteView,
    members: Option<Seq<Seq<char>>>,
)
    ensures
        match members {
            None => scim_group(group, site, members).get("members"@) is None,
            Some(ids) => scim_group(group, site, members).get("members"@) matches Some(
                JsonView::Array(list),
            ) && list.len() == ids.len() && forall|i: int|
                0 <= i < ids.len() ==> has_members(#[trigger] list[i], 1) && is_text(
                    list[i].get("value"@),
                    ids[i],
                ),
        },
{
    lemma_member_names();
    lemma_group_parts(group, site, members);
    let shown = scim_group(group, site, members)->Object_0;
    match members {
        None => {
            lemma_not_named(shown, "members"@);
        },
        Some(ids) => {
            lemma_first_named(shown, "members"@, shown.len() - 1);
            let list = shown[shown.len() - 1].value->Array_0;
            assert forall|i: int| 0 <= i < ids.len() implies has_members(#[trigger] list[i], 1)
                && is_text(list[i].get("value"@), ids[i]) by {
                lemma_first_named(list[i]->Object_0, "value"@, 0);
            }
        },
    }
}

/// A group is shown with where it can be found, when it was created and when it was last
/// written.
pub proof fn law_groups_show_their_state(
    group: GroupView,
    site: SiteView,
    members: Option<Seq<Seq<char>>>,
)
    ensures
        scim_group(group, site, members).get("meta"@) matches Some(meta) && has_members(meta, 4)
            && is_text(meta.get("resourceType"@), "Group"@) && is_text(
            meta.get("location"@),
            site.domain + "/scim/v2/"@ + site.org_uuid + "/"@ + "Groups"@ + "/"@ + group.uuid,
        ) && is_text(meta.get("created"@), group.creation_date) && is_text(
            meta.get("lastModified"@),
            group.revision_date,
        ),
{
    lemma_member_names();
    lemma_group_parts(group, site, members);
    let shown = scim_group(group, site, members)->Object_0;
    lemma_first_named(shown, "meta"@, 3);
    let meta = shown[3].value->Object_0;
    lemma_first_named(meta, "resourceType"@, 0);
    lemma_first_named(meta, "location"@, 1);
    lemma_first_named(meta, "created"@, 2);
    lemma_first_named(meta, "lastModified"@, 3);
}

/// A list says how many resources there are in all, where it starts, and how many it shows,
/// which are those it was made of, in their order.
pub proof fn law_lists_show_what_they_hold(total: int, start: int, resources: Seq<JsonView>)
    ensures
        list_body(total, start, resources).get("totalResults"@) == Some(JsonView::Integer(total)),
        list_body(total, start, resources).get("startIndex"@) == Some(JsonView::Integer(start)),
        list_body(total, start, resources).get("itemsPerPage"@) == Some(
            JsonView::Integer(resources.len() as int),
        ),
        list_body(total, start, resources).get("Resources"@) == Some(JsonView::Array(resources)),
        list_body(total, start, resources).get("schemas"@) == Some(
            JsonView::Array(
                seq![JsonView::Text("urn:ietf:params:scim:api:messages:2.0:ListResponse"@)],
            ),
        ),
        has_members(list_body(total, start, resources), 5),
{
    lemma_member_names();
    let shown = list_body(total, start, resources)->Object_0;
    lemma_first_named(shown, "schemas"@, 0);
    lemma_first_named(shown, "totalResults"@, 1);
    lemma_first_named(shown, "itemsPerPage"@, 2);
    lemma_first_named(shown, "startIndex"@, 3);
    lemma_first_named(shown, "Resources"@, 4);
    assert(shown[0].value->Array_0 =~= seq![
        JsonView::Text("urn:ietf:params:scim:api:messages:2.0:ListResponse"@),
    ]);
}

/// The body of an error names the error schema and nothing but the error: one member more
/// where it has a scimType.
pub proof fn law_errors_show_nothing_else(e: ScimErrorView)
    ensures
        e.envelope().get("schemas"@) == Some(
            JsonView::Array(seq![JsonView::Text("urn:ietf:params:scim:api:messages:2.0:Error"@)]),
        ),
        has_members(
            e.envelope(),
            if e.scim_type is Some {
                4
            } else {
                3
            },
        ),
{
    lemma_member_names();
    let shown = e.envelope()->Object_0;
    lemma_first_named(shown, "schemas"@, 0);
    assert(shown[0].value->Array_0 =~= seq![
        JsonView::Text("urn:ietf:params:scim:api:messages:2.0:Error"@),
    ]);
}

/// Each kind of error has its own status, says what it was given to say, and asks for a delay
/// only where the client was throttled: then for the configured one, and for a second at
/// least.
pub proof fn law_errors_have_their_status(
    scim_type: Seq<char>,
    detail: Seq<char>,
    configured: int,
)
    ensures
        ({
            let e = ScimErrorView::bad_request(scim_type, detail);
            e.status == 400 && e.scim_type == Some(scim_type) && e.detail == detail
                && e.retry_after is None
        }),
        ({
            let e = ScimErrorView::conflict(scim_type, detail);
            e.status == 409 && e.scim_type == Some(scim_type) && e.detail == detail
                && e.retry_after is None
        }),
        ({
            let e = ScimErrorView::not_implemented(detail);
            e.status == 501 && e.scim_type is None && e.detail == detail && e.retry_after is None
        }),
        ({
            let e = ScimErrorView::unauthorized();
            e.status == 401 && e.scim_type is None && e.retry_after is None && e.detail
                == "Unauthorized"@
        }),
        ({
            let e = ScimErrorView::not_found();
            e.status == 404 && e.scim_type is None && e.retry_after is None && e.detail
                == "Resource not found"@
        }),
        ({
            let e = ScimErrorView::payload_too_large();
            e.status == 413 && e.scim_type is None && e.retry_after is None && e.detail
                == "Payload too large"@
        }),
        ({
            let e = ScimErrorView::internal();
            e.status == 500 && e.scim_type is None && e.retry_after is None && e.detail
                == "Internal server error"@
        }),
        ({
            let e = ScimErrorView::too_many_requests(configured);
            &&& e.status == 429 && e.scim_type is None && e.detail == "Too many requests"@
            &&& e.retry_after matches Some(seconds) && seconds >= 1 && seconds >= configured && (
            seconds == 1 || seconds == configured)
        }),
{
}

/// A request that ended with a bare error status keeps it, but for a malformed parameter,
/// which is a bad request; the client is told to wait exactly where it was throttled, and a
/// status of no kind of its own is explained by its reason phrase.
pub proof fn law_caught_errors_keep_their_status(code: u16, configured: int)
    ensures
        caught_error(code, configured).status == (if code == 422 {
            400
        } else {
            code as int
        }),
        caught_error(code, configured).retry_after is Some <==> code == 429,
        caught_error(code, configured).retry_after matches Some(seconds) ==> seconds >= 1
            && seconds >= configured && (seconds == 1 || seconds == configured),
        caught_error(code, configured).scim_type == (if code == 400 || code == 422 {
            Some("invalidValue"@)
        } else {
            None
        }),
        code != 400 && code != 401 && code != 404 && code != 413 && code != 422 && code != 429
            && code != 500 ==> caught_error(code, configured).detail == (match reason_phrase(
            code,
        ) {
            Some(phrase) => phrase,
            None => "Request failed"@,
        }),
        code == 400 ==> caught_error(code, configured).detail == "Bad request"@,
        code == 401 ==> caught_error(code, configured).detail == "Unauthorized"@,
        code == 404 ==> caught_error(code, configured).detail == "Resource not found"@,
        code == 413 ==> caught_error(code, configured).detail == "Payload too large"@,
        code == 422 ==> caught_error(code, configured).detail == "Malformed request parameter"@,
        code == 429 ==> caught_error(code, configured).detail == "Too many requests"@,
        code == 500 ==> caught_error(code, configured).detail == "Internal server error"@,
        ScimErrorView::from_status(code, configured).status == code,
        ScimErrorView::from_status(code, configured).scim_type is None,
        ScimErrorView::from_status(code, configured).retry_after is Some <==> code == 429,
        code != 429 ==> ScimErrorView::from_status(code, configured).detail == (
        match reason_phrase(code) {
            Some(phrase) => phrase,
            None => "Request failed"@,
        }),
{
}

/// Of the answers that succeed, only a creation has a Location, and only an answer without
/// content has no body.
pub proof fn law_success_answers(location: Seq<char>, body: JsonView)
    ensures
        ({
            let r = ScimResponseView::ok(body);
            r.status == 200 && r.location is None && r.body == Some(body)
        }),
        ({
            let r = ScimResponseView::created(location, body);
            r.status == 201 && r.location == Some(location) && r.body == Some(body)
        }),
        ({
            let r = ScimResponseView::no_content();
            r.status == 204 && r.location is None && r.body is None
        }),
{
}

} // verus!
