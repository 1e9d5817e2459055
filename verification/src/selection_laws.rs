//! What a list request selects, and what a User request says of a person.

use vstd::prelude::*;

use crate::account::UserView;
use crate::filter::{eq_filter, filter_parts, filter_text, law_filter_round_trip};
use crate::group::GroupView;
use crate::json::JsonView;
use crate::listing::{
    account_of, all_have_accounts, group_resources, group_source, members_in, members_wanted, named_groups,
    user_resources, user_source, GroupSourceView, GroupUserView, UserSourceView,
};
use crate::membership::MembershipView;
use crate::models::{primary_email, request_display_name, request_email, ScimEmail, ScimUserRequest};
use crate::patch_meaning::{law_case_is_ignored_letter_by_letter, refused};
use crate::representation_laws::{
    is_text, law_groups_show_their_ids, law_groups_show_their_members, law_users_show_their_accounts,
    law_users_show_their_ids,
};
use crate::scim::{first_index, page_of, page_size};
use crate::text::{all_ascii, ascii_lowercase, is_white_space, lowered, same_ignoring_case};
use crate::users::SiteView;

verus! {

/// Whether a source of groups has a group among what it yields.
pub open spec fn yields_group(source: GroupSourceView, group: GroupView) -> bool {
    match source {
        GroupSourceView::ByName(name) => same_ignoring_case(group.name, name),
        GroupSourceView::ByExternalId(id) => group.external_id == Some(id),
        GroupSourceView::Page { .. } => true,
    }
}

/// Whether a source of members has a member, with its account, among what it yields.
pub open spec fn yields_user(source: UserSourceView, member: MembershipView, user: UserView) -> bool {
    match source {
        UserSourceView::ByMail(email) => same_ignoring_case(user.email, email),
        UserSourceView::ByExternalId(id) => member.external_id == Some(id),
        UserSourceView::Page { .. } => true,
    }
}

// A name that is written like a plain word, up to case, is one word of ASCII.
proof fn lemma_plain_name(attribute: Seq<char>, name: Seq<char>)
    requires
        same_ignoring_case(attribute, name),
        name.len() > 0,
        forall|i: int|
            0 <= i < name.len() ==> ('a' <= #[trigger] name[i] <= 'z' || 'A' <= name[i] <= 'Z'
                || name[i] == '.'),
    ensures
        attribute.len() > 0,
        all_ascii(attribute),
        forall|i: int| 0 <= i < attribute.len() ==> !is_white_space(#[trigger] attribute[i]),
        lowered(attribute) == ascii_lowercase(name),
{
    law_case_is_ignored_letter_by_letter(attribute, name);
    assert forall|i: int| 0 <= i < attribute.len() implies (#[trigger] attribute[i]) as int <= 127
        && !is_white_space(attribute[i]) by {
        let letter = name[i];
    }
}

proof fn lemma_filter_reaches(attribute: Seq<char>, name: Seq<char>, value: Seq<char>)
    requires
        same_ignoring_case(attribute, name),
        name.len() > 0,
        forall|i: int|
            0 <= i < name.len() ==> ('a' <= #[trigger] name[i] <= 'z' || 'A' <= name[i] <= 'Z'
                || name[i] == '.'),
        !value.contains('"'),
    ensures
        eq_filter(filter_text(attribute, value)) matches Ok(filter) && filter.attribute
            == ascii_lowercase(name) && filter.value == value,
{
    lemma_plain_name(attribute, name);
    law_filter_round_trip(attribute, value);
}

proof fn lemma_attribute_names()
    ensures
        ascii_lowercase("userName"@) == "username"@,
        ascii_lowercase("emails.value"@) == "emails.value"@,
        ascii_lowercase("externalId"@) == "externalid"@,
        ascii_lowercase("displayName"@) == "displayname"@,
        "username"@.len() == 8 && "emails.value"@.len() == 12 && "externalid"@.len() == 10
            && "displayname"@.len() == 11,
        "userName"@.len() == 8 && "externalId"@.len() == 10 && "displayName"@.len() == 11,
        forall|i: int|
            0 <= i < "userName"@.len() ==> ('a' <= #[trigger] "userName"@[i] <= 'z' || 'A'
                <= "userName"@[i] <= 'Z' || "userName"@[i] == '.'),
        forall|i: int|
            0 <= i < "emails.value"@.len() ==> ('a' <= #[trigger] "emails.value"@[i] <= 'z' || 'A'
                <= "emails.value"@[i] <= 'Z' || "emails.value"@[i] == '.'),
        forall|i: int|
            0 <= i < "externalId"@.len() ==> ('a' <= #[trigger] "externalId"@[i] <= 'z' || 'A'
                <= "externalId"@[i] <= 'Z' || "externalId"@[i] == '.'),
        forall|i: int|
            0 <= i < "displayName"@.len() ==> ('a' <= #[trigger] "displayName"@[i] <= 'z' || 'A'
                <= "displayName"@[i] <= 'Z' || "displayName"@[i] == '.'),
{
    reveal_strlit("userName");
    reveal_strlit("username");
    reveal_strlit("emails.value");
    reveal_strlit("externalId");
    reveal_strlit("externalid");
    reveal_strlit("displayName");
    reveal_strlit("displayname");
    assert(ascii_lowercase("userName"@) =~= "username"@);
    assert(ascii_lowercase("emails.value"@) =~= "emails.value"@);
    assert(ascii_lowercase("externalId"@) =~= "externalid"@);
    assert(ascii_lowercase("displayName"@) =~= "displayname"@);
}

/// A group filter on externalId selects exactly the groups that have that externalId, and one
/// on displayName exactly those that have that name in any casing.
pub proof fn law_group_filters_select(
    attribute: Seq<char>,
    value: Seq<char>,
    start: int,
    size: int,
    group: GroupView,
)
    requires
        !value.contains('"'),
    ensures
        same_ignoring_case(attribute, "externalId"@) ==> (group_source(
            Some(attribute + " eq \""@ + value + "\""@),
            start,
            size,
        ) matches Ok(source) && source is ByExternalId && (yields_group(source, group)
            <==> group.external_id == Some(value))),
        same_ignoring_case(attribute, "displayName"@) ==> (group_source(
            Some(attribute + " eq \""@ + value + "\""@),
            start,
            size,
        ) matches Ok(source) && source is ByName && (yields_group(source, group)
            <==> same_ignoring_case(group.name, value))),
{
    lemma_attribute_names();
    if same_ignoring_case(attribute, "externalId"@) {
        lemma_filter_reaches(attribute, "externalId"@, value);
    }
    if same_ignoring_case(attribute, "displayName"@) {
        lemma_filter_reaches(attribute, "displayName"@, value);
    }
}

/// A user filter on userName or on emails.value selects exactly the members whose account has
/// that address in any casing, and one on externalId exactly those that have that externalId.
pub proof fn law_user_filters_select(
    attribute: Seq<char>,
    value: Seq<char>,
    start: int,
    size: int,
    member: MembershipView,
    user: UserView,
)
    requires
        !value.contains('"'),
    ensures
        same_ignoring_case(attribute, "externalId"@) ==> (user_source(
            Some(attribute + " eq \""@ + value + "\""@),
            start,
            size,
        ) matches Ok(source) && source is ByExternalId && (yields_user(source, member, user)
            <==> member.external_id == Some(value))),
        same_ignoring_case(attribute, "userName"@) || same_ignoring_case(
            attribute,
            "emails.value"@,
        ) ==> (user_source(Some(attribute + " eq \""@ + value + "\""@), start, size) matches Ok(
            source,
        ) && source is ByMail && (yields_user(source, member, user) <==> same_ignoring_case(
            user.email,
            value,
        ))),
{
    lemma_attribute_names();
    if same_ignoring_case(attribute, "externalId"@) {
        lemma_filter_reaches(attribute, "externalId"@, value);
    }
    if same_ignoring_case(attribute, "userName"@) {
        lemma_filter_reaches(attribute, "userName"@, value);
    }
    if same_ignoring_case(attribute, "emails.value"@) {
        lemma_filter_reaches(attribute, "emails.value"@, value);
    }
}

/// A filter on any other attribute is refused, and so is a text that is no filter: nothing is
/// listed on a guess.
pub proof fn law_other_filters_are_refused(text: Seq<char>, start: int, size: int)
    ensures
        filter_parts(text) is None ==> refused(
            user_source(Some(text), start, size),
            "invalidFilter"@,
            "Only filters of the form: attribute eq \"value\" are supported"@,
        ) && refused(
            group_source(Some(text), start, size),
            "invalidFilter"@,
            "Only filters of the form: attribute eq \"value\" are supported"@,
        ),
        filter_parts(text) matches Some((attribute, _)) ==> (all_ascii(attribute)
            && !same_ignoring_case(attribute, "userName"@) && !same_ignoring_case(
            attribute,
            "emails.value"@,
        ) && !same_ignoring_case(attribute, "externalId"@) ==> refused(
            user_source(Some(text), start, size),
            "invalidFilter"@,
            "Filterable attributes are userName, emails.value and externalId"@,
        )),
        filter_parts(text) matches Some((attribute, _)) ==> (all_ascii(attribute)
            && !same_ignoring_case(attribute, "displayName"@) && !same_ignoring_case(
            attribute,
            "externalId"@,
        ) ==> refused(
            group_source(Some(text), start, size),
            "invalidFilter"@,
            "Filterable attributes are displayName and externalId"@,
        )),
{
    lemma_attribute_names();
}

/// A list without a filter is cut out of everything, at the place and of the size asked for:
/// an absent or unusable place is the first, an absent size a hundred, and no size is beyond
/// two hundred or below none.
pub proof fn law_unfiltered_lists_are_pages(start_index: Option<i64>, count: Option<i64>)
    ensures
        ({
            let start = first_index(start_index);
            let size = page_size(count);
            &&& user_source(None, start, size) matches Ok(UserSourceView::Page { limit, offset })
                && limit == size && offset == start - 1
            &&& group_source(None, start, size) matches Ok(GroupSourceView::Page { limit, offset })
                && limit == size && offset == start - 1
            &&& start_index matches Some(n) ==> (1 <= n <= usize::MAX ==> start == n) && (n <= 0
                ==> start == 1)
            &&& start_index is None ==> start == 1
            &&& count matches Some(n) ==> (0 <= n <= 200 ==> size == n) && (200 < n <= usize::MAX
                ==> size == 200) && (n < 0 ==> size == 0)
            &&& count is None ==> size == 100
        }),
{
}

/// A page shows what stands at its place and behind it, as far as there is anything and as
/// far as its size allows.
pub proof fn law_pages_show_their_place<T>(all: Seq<T>, start: int, size: int, i: int)
    requires
        start >= 1,
        size >= 0,
    ensures
        0 <= i < page_of(all, start, size).len() <==> 0 <= i < size && start - 1 + i < all.len(),
        0 <= i < page_of(all, start, size).len() ==> page_of(all, start, size)[i] == all[start - 1
            + i],
{
}

/// The groups of a name are all those that have it in any casing, in their order.
pub proof fn law_named_groups_are_all_of_that_name(groups: Seq<GroupView>, name: Seq<char>)
    ensures
        named_groups(groups, name) == groups.filter(
            |group: GroupView| same_ignoring_case(group.name, name),
        ),
    decreases groups.len(),
{
    reveal(Seq::filter);
    if groups.len() > 0 {
        law_named_groups_are_all_of_that_name(groups.drop_last(), name);
    }
}

/// The members of a group are all those that a row puts into it, in the order of the rows.
pub proof fn law_members_are_those_of_the_group(rows: Seq<GroupUserView>, group: Seq<char>)
    ensures
        members_in(rows, group) == rows.filter(
            |row: GroupUserView| row.groups_uuid == group,
        ).map_values(|row: GroupUserView| row.users_organizations_uuid),
    decreases rows.len(),
{
    reveal(Seq::filter);
    if rows.len() > 0 {
        law_members_are_those_of_the_group(rows.drop_last(), group);
    }
    assert(members_in(rows, group) =~= rows.filter(
        |row: GroupUserView| row.groups_uuid == group,
    ).map_values(|row: GroupUserView| row.users_organizations_uuid));
}

/// The account of an id is the first that has it, and there is none exactly where no account
/// has it.
pub proof fn law_accounts_are_found_by_id(users: Seq<UserView>, uuid: Seq<char>)
    ensures
        match account_of(users, uuid) {
            Some(user) => exists|i: int|
                #![trigger users[i]]
                0 <= i < users.len() && users[i] == user && user.uuid == uuid && forall|j: int|
                    0 <= j < i ==> (#[trigger] users[j]).uuid != uuid,
            None => forall|i: int| 0 <= i < users.len() ==> (#[trigger] users[i]).uuid != uuid,
        },
    decreases users.len(),
{
    if users.len() > 0 {
        if users[0].uuid == uuid {
            assert(users[0] == account_of(users, uuid)->Some_0);
        } else {
            let rest = users.drop_first();
            law_accounts_are_found_by_id(rest, uuid);
            match account_of(rest, uuid) {
                Some(user) => {
                    let k = choose|k: int|
                        #![trigger rest[k]]
                        0 <= k < rest.len() && rest[k] == user && user.uuid == uuid && forall|
                            j: int,
                        |
                            0 <= j < k ==> (#[trigger] rest[j]).uuid != uuid;
                    assert(users[k + 1] == user);
                    assert forall|j: int| 0 <= j < k + 1 implies (#[trigger] users[j]).uuid
                        != uuid by {
                        if j > 0 {
                            assert(users[j] == rest[j - 1]);
                        }
                    }
                },
                None => {
                    assert forall|i: int| 0 <= i < users.len() implies (#[trigger] users[i]).uuid
                        != uuid by {
                        if i > 0 {
                            assert(users[i] == rest[i - 1]);
                        }
                    }
                },
            }
        }
    }
}

/// A page can be shown exactly where every member on it has an account.
pub proof fn law_pages_need_every_account(page: Seq<MembershipView>, users: Seq<UserView>)
    ensures
        all_have_accounts(page, users) <==> forall|i: int|
            0 <= i < page.len() ==> exists|k: int|
                0 <= k < users.len() && (#[trigger] users[k]).uuid == (
                #[trigger] page[i]).user_uuid,
{
    assert forall|i: int| 0 <= i < page.len() implies (account_of(
        users,
        (#[trigger] page[i]).user_uuid,
    ) is Some <==> exists|k: int|
        0 <= k < users.len() && (#[trigger] users[k]).uuid == page[i].user_uuid) by {
        law_accounts_are_found_by_id(users, page[i].user_uuid);
    }
}

/// Each member on a page is shown with the account it belongs to.
pub proof fn law_listed_users_show_their_own_account(
    page: Seq<MembershipView>,
    users: Seq<UserView>,
    site: SiteView,
    i: int,
)
    requires
        0 <= i < page.len(),
        account_of(users, page[i].user_uuid) is Some,
    ensures
        user_resources(page, users, site).len() == page.len(),
        is_text(user_resources(page, users, site)[i].get("id"@), page[i].uuid),
        exists|k: int|
            #![trigger users[k]]
            0 <= k < users.len() && users[k].uuid == page[i].user_uuid && is_text(
                user_resources(page, users, site)[i].get("userName"@),
                users[k].email,
            ),
{
    let user = account_of(users, page[i].user_uuid)->Some_0;
    law_accounts_are_found_by_id(users, page[i].user_uuid);
    law_users_show_their_ids(page[i], user, site);
    law_users_show_their_accounts(page[i], user, site);
}

/// Each group on a page is shown under its own id, with its own members where they are shown.
pub proof fn law_listed_groups_show_their_own_members(
    page: Seq<GroupView>,
    rows: Seq<GroupUserView>,
    include_members: bool,
    site: SiteView,
    i: int,
)
    requires
        0 <= i < page.len(),
    ensures
        group_resources(page, rows, include_members, site).len() == page.len(),
        is_text(
            group_resources(page, rows, include_members, site)[i].get("id"@),
            page[i].uuid,
        ),
        ({
            let own = rows.filter(|row: GroupUserView| row.groups_uuid == page[i].uuid);
            let shown = group_resources(page, rows, include_members, site)[i].get("members"@);
            if include_members {
                shown matches Some(JsonView::Array(list)) && list.len() == own.len() && forall|
                    k: int,
                |
                    0 <= k < own.len() ==> is_text(
                        (#[trigger] list[k]).get("value"@),
                        own[k].users_organizations_uuid,
                    )
            } else {
                shown is None
            }
        }),
{
    let members = if include_members {
        Some(members_in(rows, page[i].uuid))
    } else {
        None
    };
    law_members_are_those_of_the_group(rows, page[i].uuid);
    law_groups_show_their_ids(page[i], site, members);
    law_groups_show_their_members(page[i], site, members);
}

/// Groups are listed with their members, unless the client names members among what it does
/// not want.
pub proof fn law_members_are_shown_unless_excluded(excluded: Option<Seq<char>>)
    ensures
        !members_wanted(excluded) <==> (excluded matches Some(names) && exists|at: int|
            0 <= at && at + 7 <= names.len() && #[trigger] names.subrange(at, at + 7)
                == "members"@),
{
    reveal_strlit("members");
    if let Some(names) = excluded {
        if exists|at: int|
            0 <= at && at + 7 <= names.len() && #[trigger] names.subrange(at, at + 7)
                == "members"@ {
            let at = choose|at: int|
                0 <= at && at + 7 <= names.len() && #[trigger] names.subrange(at, at + 7)
                    == "members"@;
            assert(crate::text::occurs_at(names, "members"@, at));
        }
        if !members_wanted(excluded) {
            let at = choose|at: int| crate::text::occurs_at(names, "members"@, at);
            assert(names.subrange(at, at + 7) == "members"@);
        }
    }
}

proof fn lemma_primary_email(emails: Seq<ScimEmail>)
    ensures
        match primary_email(emails) {
            Some(email) => exists|i: int|
                #![trigger emails[i]]
                0 <= i < emails.len() && emails[i].primary && emails[i].value@ == email && forall|
                    j: int,
                |
                    0 <= j < i ==> !(#[trigger] emails[j]).primary,
            None => forall|i: int| 0 <= i < emails.len() ==> !(#[trigger] emails[i]).primary,
        },
    decreases emails.len(),
{
    if emails.len() > 0 {
        if emails[0].primary {
            assert(emails[0].value@ == primary_email(emails)->Some_0);
        } else {
            let rest = emails.drop_first();
            lemma_primary_email(rest);
            match primary_email(rest) {
                Some(email) => {
                    let k = choose|k: int|
                        #![trigger rest[k]]
                        0 <= k < rest.len() && rest[k].primary && rest[k].value@ == email && forall|
                            j: int,
                        |
                            0 <= j < k ==> !(#[trigger] rest[j]).primary;
                    assert(emails[k + 1] == rest[k]);
                    assert forall|j: int| 0 <= j < k + 1 implies !(#[trigger] emails[j]).primary by {
                        if j > 0 {
                            assert(emails[j] == rest[j - 1]);
                        }
                    }
                },
                None => {
                    assert forall|i: int| 0 <= i < emails.len() implies !(
                    #[trigger] emails[i]).primary by {
                        if i > 0 {
                            assert(emails[i] == rest[i - 1]);
                        }
                    }
                },
            }
        }
    }
}

/// The address of a request is its userName where that is an address, whatever else it
/// carries; otherwise the first of its addresses that is primary, and none where none is.
pub proof fn law_requests_say_their_address(request: ScimUserRequest)
    ensures
        request.user_name matches Some(user_name) ==> (user_name@.contains('@') ==> request_email(
            request,
        ) == Some(user_name@)),
        !(request.user_name matches Some(user_name) && user_name@.contains('@')) ==> (
        match request_email(request) {
            Some(email) => exists|i: int|
                #![trigger request.emails@[i]]
                0 <= i < request.emails@.len() && request.emails@[i].primary
                    && request.emails@[i].value@ == email && forall|j: int|
                    0 <= j < i ==> !(#[trigger] request.emails@[j]).primary,
            None => forall|i: int|
                0 <= i < request.emails@.len() ==> !(#[trigger] request.emails@[i]).primary,
        }),
{
    lemma_primary_email(request.emails@);
}

/// Whether an optional text is absent or empty.
pub open spec fn missing(s: Option<String>) -> bool {
    s matches Some(text) ==> text@.len() == 0
}

/// The name of a request is its displayName; where that is missing, the formatted name; where
/// that is missing too, the given and the family name with a space between them, or the one
/// of them that is there; and otherwise there is none.
pub proof fn law_requests_say_their_name(request: ScimUserRequest)
    ensures
        !missing(request.display_name) ==> request_display_name(request) == Some(
            request.display_name->Some_0@,
        ),
        missing(request.display_name) ==> (match request.name {
            None => request_display_name(request) is None,
            Some(name) => if !missing(name.formatted) {
                request_display_name(request) == Some(name.formatted->Some_0@)
            } else if !missing(name.given_name) && !missing(name.family_name) {
                request_display_name(request) == Some(
                    name.given_name->Some_0@ + " "@ + name.family_name->Some_0@,
                )
            } else if !missing(name.given_name) {
                request_display_name(request) == Some(name.given_name->Some_0@)
            } else if !missing(name.family_name) {
                request_display_name(request) == Some(name.family_name->Some_0@)
            } else {
                request_display_name(request) is None
            },
        }),
{
}

} // verus!
