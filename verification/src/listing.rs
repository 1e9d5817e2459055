//! Listing members and groups.
//!
//! A filter is cheap and its matches are cut to a page in memory. Without a filter the
//! database cuts the page, on a stable order, so that nothing is skipped or repeated
//! across a client's separate requests.

use vstd::prelude::*;
use vstd::string::*;

use crate::account::{User, UserView};
use crate::error::{ScimError, ScimErrorView};
use crate::filter::{eq_filter, parse_eq_filter, EqFilter, EqFilterView};
use crate::group::{Group, GroupView};
use crate::groups::{check_groups_enabled, scim_group, scim_group_body, GROUPS_DISABLED};
use crate::json::{views, Json, JsonView};
use crate::membership::{Membership, MembershipView};
use crate::scim::{
    first_index, list_body, list_response, page, page_bounds, page_of, page_size, ScimResponse,
    ScimResponseView,
};
use crate::text::{
    contains, contains_text, eq_ignore_ascii_case, optional, same_ignoring_case, text_eq, texts,
};
use crate::users::{scim_user, to_scim_user, Site, SiteView};

verus! {

pub const USER_FILTERS: &'static str = "Filterable attributes are userName, emails.value and externalId";

pub const GROUP_FILTERS: &'static str = "Filterable attributes are displayName and externalId";

/// The query parameters of a User list request.
#[derive(Debug)]
pub struct ListParams {
    pub filter: Option<String>,
    pub start_index: Option<i64>,
    pub count: Option<i64>,
}

/// Where the members of a list come from.
#[derive(Debug)]
pub enum UserSource {
    /// The member whose account has an address, in any casing.
    ByMail(String),
    /// The member that has an externalId.
    ByExternalId(String),
    /// A page of all members.
    Page { limit: i64, offset: i64 },
}

/// The mathematical counterpart of [`UserSource`].
pub ghost enum UserSourceView {
    ByMail(Seq<char>),
    ByExternalId(Seq<char>),
    Page { limit: int, offset: int },
}

impl View for UserSource {
    type V = UserSourceView;

    open spec fn view(&self) -> UserSourceView {
        match self {
            UserSource::ByMail(email) => UserSourceView::ByMail(email@),
            UserSource::ByExternalId(id) => UserSourceView::ByExternalId(id@),
            UserSource::Page { limit, offset } => UserSourceView::Page {
                limit: *limit as int,
                offset: *offset as int,
            },
        }
    }
}

/// Where the members that match a filter come from.
pub open spec fn filtered_users(filter: EqFilterView) -> Result<UserSourceView, ScimErrorView> {
    if filter.attribute == "username"@ || filter.attribute == "emails.value"@ {
        Ok(UserSourceView::ByMail(filter.value))
    } else if filter.attribute == "externalid"@ {
        Ok(UserSourceView::ByExternalId(filter.value))
    } else {
        Err(ScimErrorView::bad_request("invalidFilter"@, USER_FILTERS@))
    }
}

/// Where the members of a list come from.
pub open spec fn user_source(filter: Option<Seq<char>>, start: int, size: int) -> Result<
    UserSourceView,
    ScimErrorView,
> {
    match filter {
        None => Ok(UserSourceView::Page { limit: size, offset: start - 1 }),
        Some(text) => match eq_filter(text) {
            Ok(filter) => filtered_users(filter),
            Err(e) => Err(e),
        },
    }
}

/// Finds out where the members that match a filter come from.
pub fn user_filter_source(filter: EqFilter) -> (r: Result<UserSource, ScimError>)
    ensures
        match r {
            Ok(source) => filtered_users(filter@) == Ok::<UserSourceView, ScimErrorView>(source@),
            Err(e) => filtered_users(filter@) == Err::<UserSourceView, ScimErrorView>(e@),
        },
{
    let attribute = filter.attribute.as_str();
    if text_eq(attribute, "username") || text_eq(attribute, "emails.value") {
        Ok(UserSource::ByMail(filter.value))
    } else if text_eq(attribute, "externalid") {
        Ok(UserSource::ByExternalId(filter.value))
    } else {
        Err(ScimError::bad_request("invalidFilter", USER_FILTERS))
    }
}

/// A list of members that is being put together.
#[derive(Debug)]
pub struct UserListing {
    pub start_index: usize,
    pub count: usize,
    pub source: UserSource,
}

/// Starts a list of members.
pub fn list_users(params: ListParams) -> (r: Result<UserListing, ScimError>)
    ensures
        ({
            let wanted = user_source(
                optional(params.filter),
                first_index(params.start_index),
                page_size(params.count),
            );
            match r {
                Ok(listing) => {
                    &&& wanted == Ok::<UserSourceView, ScimErrorView>(listing.source@)
                    &&& listing.start_index == first_index(params.start_index)
                    &&& listing.count == page_size(params.count)
                    &&& listing.start_index >= 1
                },
                Err(e) => wanted == Err::<UserSourceView, ScimErrorView>(e@),
            }
        }),
{
    let (start_index, count) = page_bounds(params.start_index, params.count);
    match params.filter {
        None => Ok(
            UserListing {
                start_index,
                count,
                source: UserSource::Page { limit: count as i64, offset: (start_index - 1) as i64 },
            },
        ),
        Some(text) => match parse_eq_filter(text.as_str()) {
            Err(e) => Err(e),
            Ok(filter) => match user_filter_source(filter) {
                Err(e) => Err(e),
                Ok(source) => Ok(UserListing { start_index, count, source }),
            },
        },
    }
}

/// How many resources a count from the database stands for.
pub fn total_of(count: i64) -> (r: usize)
    ensures
        0 <= count <= usize::MAX ==> r == count,
        count < 0 || count > usize::MAX ==> r == 0,
{
    if count >= 0 && count as u64 <= usize::MAX as u64 {
        count as usize
    } else {
        0
    }
}

/// The views of a list of members.
pub open spec fn membership_views(members: Seq<Membership>) -> Seq<MembershipView> {
    members.map_values(|member: Membership| member@)
}

/// The views of a list of accounts.
pub open spec fn user_views(users: Seq<User>) -> Seq<UserView> {
    users.map_values(|user: User| user@)
}

/// The account with an id.
pub open spec fn account_of(users: Seq<UserView>, uuid: Seq<char>) -> Option<UserView>
    decreases users.len(),
{
    if users.len() == 0 {
        None
    } else if users[0].uuid == uuid {
        Some(users[0])
    } else {
        account_of(users.drop_first(), uuid)
    }
}

/// Whether every member has its account among those that were loaded.
pub open spec fn all_have_accounts(page: Seq<MembershipView>, users: Seq<UserView>) -> bool {
    forall|i: int| 0 <= i < page.len() ==> account_of(users, (#[trigger] page[i]).user_uuid) is Some
}

/// The representations of a page of members.
pub open spec fn user_resources(
    page: Seq<MembershipView>,
    users: Seq<UserView>,
    site: SiteView,
) -> Seq<JsonView> {
    page.map_values(
        |member: MembershipView|
            scim_user(member, account_of(users, member.user_uuid)->Some_0, site),
    )
}

fn find_account<'a>(users: &'a Vec<User>, uuid: &String) -> (r: Option<&'a User>)
    ensures
        match r {
            Some(user) => account_of(user_views(users@), uuid@) == Some(user@),
            None => account_of(user_views(users@), uuid@) is None,
        },
{
    let ghost all = user_views(users@);
    let mut i: usize = 0;
    assert(all.skip(0) =~= all);
    while i < users.len()
        invariant
            i <= users.len(),
            all == user_views(users@),
            account_of(all, uuid@) == account_of(all.skip(i as int), uuid@),
        decreases users.len() - i,
    {
        assert(all.skip(i as int)[0] == all[i as int]);
        if users[i].uuid == *uuid {
            return Some(&users[i]);
        }
        assert(all.skip(i as int).drop_first() =~= all.skip(i + 1));
        i += 1;
    }
    None
}

impl UserListing {
    /// Cuts the page out of what a filter matched.
    pub fn select(&self, matched: Vec<Membership>) -> (r: (usize, Vec<Membership>))
        requires
            self.start_index >= 1,
        ensures
            r.0 == matched.len(),
            r.1@ == page_of(matched@, self.start_index as int, self.count as int),
    {
        let total: usize = matched.len();
        (total, page(matched, self.start_index, self.count))
    }

    /// Answers the request. A member without an account is a dangling reference, and
    /// is reported rather than skipped.
    pub fn respond(
        &self,
        total: usize,
        page: &Vec<Membership>,
        users: &Vec<User>,
        site: &Site,
    ) -> (r: Result<ScimResponse, ScimError>)
        ensures
            ({
                let members = membership_views(page@);
                let accounts = user_views(users@);
                match r {
                    Ok(response) => all_have_accounts(members, accounts) && response@
                        == ScimResponseView::ok(
                        list_body(
                            total as int,
                            self.start_index as int,
                            user_resources(members, accounts, site@),
                        ),
                    ),
                    Err(e) => !all_have_accounts(members, accounts) && e@
                        == ScimErrorView::internal(),
                }
            }),
    {
        let ghost members = membership_views(page@);
        let ghost accounts = user_views(users@);
        let ghost all = user_resources(members, accounts, site@);
        let mut resources: Vec<Json> = Vec::new();
        let mut i: usize = 0;
        assert(views(resources@) =~= all.take(0));
        while i < page.len()
            invariant
                i <= page.len(),
                members == membership_views(page@),
                accounts == user_views(users@),
                all == user_resources(members, accounts, site@),
                forall|j: int|
                    0 <= j < i ==> account_of(accounts, (#[trigger] members[j]).user_uuid) is Some,
                views(resources@) == all.take(i as int),
            decreases page.len() - i,
        {
            let ghost before = resources@;
            let member = &page[i];
            assert(members[i as int] == member@);
            match find_account(users, &member.user_uuid) {
                Some(user) => {
                    resources.push(to_scim_user(member, user, site));
                    assert(views(resources@) =~= views(before).push(all[i as int]));
                    assert(views(resources@) =~= all.take(i + 1));
                },
                None => {
                    assert(!all_have_accounts(members, accounts));
                    return Err(ScimError::internal());
                },
            }
            i += 1;
        }
        assert(all.take(i as int) =~= all);
        Ok(list_response(total, self.start_index, resources))
    }
}

/// The query parameters of a Group list request.
#[derive(Debug)]
pub struct GroupListParams {
    pub filter: Option<String>,
    pub start_index: Option<i64>,
    pub count: Option<i64>,
    pub excluded_attributes: Option<String>,
}

/// Where the groups of a list come from.
#[derive(Debug)]
pub enum GroupSource {
    /// Those of all groups that have a name, in any casing.
    ByName(String),
    /// The group that has an externalId.
    ByExternalId(String),
    /// A page of all groups.
    Page { limit: i64, offset: i64 },
}

/// The mathematical counterpart of [`GroupSource`].
pub ghost enum GroupSourceView {
    ByName(Seq<char>),
    ByExternalId(Seq<char>),
    Page { limit: int, offset: int },
}

impl View for GroupSource {
    type V = GroupSourceView;

    open spec fn view(&self) -> GroupSourceView {
        match self {
            GroupSource::ByName(name) => GroupSourceView::ByName(name@),
            GroupSource::ByExternalId(id) => GroupSourceView::ByExternalId(id@),
            GroupSource::Page { limit, offset } => GroupSourceView::Page {
                limit: *limit as int,
                offset: *offset as int,
            },
        }
    }
}

/// Where the groups that match a filter come from.
pub open spec fn filtered_groups(filter: EqFilterView) -> Result<GroupSourceView, ScimErrorView> {
    if filter.attribute == "displayname"@ {
        Ok(GroupSourceView::ByName(filter.value))
    } else if filter.attribute == "externalid"@ {
        Ok(GroupSourceView::ByExternalId(filter.value))
    } else {
        Err(ScimErrorView::bad_request("invalidFilter"@, GROUP_FILTERS@))
    }
}

/// Where the groups of a list come from.
pub open spec fn group_source(filter: Option<Seq<char>>, start: int, size: int) -> Result<
    GroupSourceView,
    ScimErrorView,
> {
    match filter {
        None => Ok(GroupSourceView::Page { limit: size, offset: start - 1 }),
        Some(text) => match eq_filter(text) {
            Ok(filter) => filtered_groups(filter),
            Err(e) => Err(e),
        },
    }
}

/// Finds out where the groups that match a filter come from.
pub fn group_filter_source(filter: EqFilter) -> (r: Result<GroupSource, ScimError>)
    ensures
        match r {
            Ok(source) => filtered_groups(filter@) == Ok::<GroupSourceView, ScimErrorView>(source@),
            Err(e) => filtered_groups(filter@) == Err::<GroupSourceView, ScimErrorView>(e@),
        },
{
    let attribute = filter.attribute.as_str();
    if text_eq(attribute, "displayname") {
        Ok(GroupSource::ByName(filter.value))
    } else if text_eq(attribute, "externalid") {
        Ok(GroupSource::ByExternalId(filter.value))
    } else {
        Err(ScimError::bad_request("invalidFilter", GROUP_FILTERS))
    }
}

/// A list of groups that is being put together.
#[derive(Debug)]
pub struct GroupListing {
    pub start_index: usize,
    pub count: usize,
    pub source: GroupSource,
    pub include_members: bool,
}

/// Whether a list shows the members of its groups: not where the client excludes them.
pub open spec fn members_wanted(excluded: Option<Seq<char>>) -> bool {
    match excluded {
        Some(names) => !contains_text(names, "members"@),
        None => true,
    }
}

/// Starts a list of groups.
pub fn list_groups(enabled: bool, params: GroupListParams) -> (r: Result<GroupListing, ScimError>)
    ensures
        if !enabled {
            r matches Err(e) && e@ == ScimErrorView::not_implemented(GROUPS_DISABLED@)
        } else {
            let wanted = group_source(
                optional(params.filter),
                first_index(params.start_index),
                page_size(params.count),
            );
            match r {
                Ok(listing) => {
                    &&& wanted == Ok::<GroupSourceView, ScimErrorView>(listing.source@)
                    &&& listing.start_index == first_index(params.start_index)
                    &&& listing.count == page_size(params.count)
                    &&& listing.start_index >= 1
                    &&& listing.include_members == members_wanted(
                        optional(params.excluded_attributes),
                    )
                },
                Err(e) => wanted == Err::<GroupSourceView, ScimErrorView>(e@),
            }
        },
{
    if let Err(e) = check_groups_enabled(enabled) {
        return Err(e);
    }
    let include_members = match &params.excluded_attributes {
        Some(names) => !contains(names.as_str(), "members"),
        None => true,
    };
    let (start_index, count) = page_bounds(params.start_index, params.count);
    match params.filter {
        None => Ok(
            GroupListing {
                start_index,
                count,
                source: GroupSource::Page {
                    limit: count as i64,
                    offset: (start_index - 1) as i64,
                },
                include_members,
            },
        ),
        Some(text) => match parse_eq_filter(text.as_str()) {
            Err(e) => Err(e),
            Ok(filter) => match group_filter_source(filter) {
                Err(e) => Err(e),
                Ok(source) => Ok(GroupListing { start_index, count, source, include_members }),
            },
        },
    }
}

/// The views of a list of groups.
pub open spec fn group_views(groups: Seq<Group>) -> Seq<GroupView> {
    groups.map_values(|group: Group| group@)
}

/// The groups that have a name, in any casing.
pub open spec fn named_groups(groups: Seq<GroupView>, name: Seq<char>) -> Seq<GroupView>
    decreases groups.len(),
{
    if groups.len() == 0 {
        Seq::empty()
    } else {
        let earlier = named_groups(groups.drop_last(), name);
        if same_ignoring_case(groups.last().name, name) {
            earlier.push(groups.last())
        } else {
            earlier
        }
    }
}

/// Picks the groups that have a name. displayName is not case-exact in RFC 7643 section
/// 4.2, so `eq` matches in any casing.
pub fn select_named(groups: &Vec<Group>, name: &str) -> (r: Vec<Group>)
    ensures
        group_views(r@) == named_groups(group_views(groups@), name@),
{
    let ghost all = group_views(groups@);
    let mut r: Vec<Group> = Vec::new();
    let mut i: usize = 0;
    assert(group_views(r@) =~= named_groups(all.take(0), name@));
    while i < groups.len()
        invariant
            i <= groups.len(),
            all == group_views(groups@),
            group_views(r@) == named_groups(all.take(i as int), name@),
        decreases groups.len() - i,
    {
        let ghost before = r@;
        proof {
            assert(all.take(i + 1).drop_last() =~= all.take(i as int));
            assert(all.take(i + 1).last() == all[i as int]);
        }
        if eq_ignore_ascii_case(groups[i].name.as_str(), name) {
            r.push(groups[i].copy());
            assert(group_views(r@) =~= group_views(before).push(all[i as int]));
        }
        i += 1;
    }
    assert(all.take(i as int) =~= all);
    r
}

/// A row that puts a member into a group.
#[derive(Debug)]
pub struct GroupUser {
    pub groups_uuid: String,
    pub users_organizations_uuid: String,
}

/// The mathematical counterpart of [`GroupUser`].
#[verifier::ext_equal]
pub ghost struct GroupUserView {
    pub groups_uuid: Seq<char>,
    pub users_organizations_uuid: Seq<char>,
}

impl View for GroupUser {
    type V = GroupUserView;

    open spec fn view(&self) -> GroupUserView {
        GroupUserView {
            groups_uuid: self.groups_uuid@,
            users_organizations_uuid: self.users_organizations_uuid@,
        }
    }
}

/// The views of a list of rows.
pub open spec fn row_views(rows: Seq<GroupUser>) -> Seq<GroupUserView> {
    rows.map_values(|row: GroupUser| row@)
}

/// The members that a list of rows puts into a group.
pub open spec fn members_in(rows: Seq<GroupUserView>, group: Seq<char>) -> Seq<Seq<char>>
    decreases rows.len(),
{
    if rows.len() == 0 {
        Seq::empty()
    } else {
        let earlier = members_in(rows.drop_last(), group);
        if rows.last().groups_uuid == group {
            earlier.push(rows.last().users_organizations_uuid)
        } else {
            earlier
        }
    }
}

fn collect_members(rows: &Vec<GroupUser>, group: &String) -> (r: Vec<String>)
    ensures
        texts(r@) == members_in(row_views(rows@), group@),
{
    let ghost all = row_views(rows@);
    let mut r: Vec<String> = Vec::new();
    let mut i: usize = 0;
    assert(texts(r@) =~= members_in(all.take(0), group@));
    while i < rows.len()
        invariant
            i <= rows.len(),
            all == row_views(rows@),
            texts(r@) == members_in(all.take(i as int), group@),
        decreases rows.len() - i,
    {
        let ghost before = r@;
        proof {
            assert(all.take(i + 1).drop_last() =~= all.take(i as int));
            assert(all.take(i + 1).last() == all[i as int]);
        }
        if rows[i].groups_uuid == *group {
            r.push(rows[i].users_organizations_uuid.clone());
            assert(texts(r@) =~= texts(before).push(all[i as int].users_organizations_uuid));
        }
        i += 1;
    }
    assert(all.take(i as int) =~= all);
    r
}

/// The representations of a page of groups.
pub open spec fn group_resources(
    page: Seq<GroupView>,
    rows: Seq<GroupUserView>,
    include_members: bool,
    site: SiteView,
) -> Seq<JsonView> {
    page.map_values(
        |group: GroupView|
            scim_group(
                group,
                site,
                if include_members {
                    Some(members_in(rows, group.uuid))
                } else {
                    None
                },
            ),
    )
}

impl GroupListing {
    /// Cuts the page out of what a filter matched.
    pub fn select(&self, matched: Vec<Group>) -> (r: (usize, Vec<Group>))
        requires
            self.start_index >= 1,
        ensures
            r.0 == matched.len(),
            r.1@ == page_of(matched@, self.start_index as int, self.count as int),
    {
        let total: usize = matched.len();
        (total, page(matched, self.start_index, self.count))
    }

    /// Answers the request. `rows` are the members of all groups on the page.
    pub fn respond(
        &self,
        total: usize,
        page: &Vec<Group>,
        rows: &Vec<GroupUser>,
        site: &Site,
    ) -> (r: ScimResponse)
        ensures
            r@ == ScimResponseView::ok(
                list_body(
                    total as int,
                    self.start_index as int,
                    group_resources(
                        group_views(page@),
                        row_views(rows@),
                        self.include_members,
                        site@,
                    ),
                ),
            ),
    {
        let ghost all = group_resources(
            group_views(page@),
            row_views(rows@),
            self.include_members,
            site@,
        );
        let mut resources: Vec<Json> = Vec::new();
        let mut i: usize = 0;
        assert(views(resources@) =~= all.take(0));
        while i < page.len()
            invariant
                i <= page.len(),
                all == group_resources(
                    group_views(page@),
                    row_views(rows@),
                    self.include_members,
                    site@,
                ),
                views(resources@) == all.take(i as int),
            decreases page.len() - i,
        {
            let ghost before = resources@;
            let group = &page[i];
            assert(group_views(page@)[i as int] == group@);
            let body = if self.include_members {
                let members = collect_members(rows, &group.uuid);
                scim_group_body(group, site, Some(&members))
            } else {
                scim_group_body(group, site, None)
            };
            resources.push(body);
            assert(views(resources@) =~= views(before).push(all[i as int]));
            assert(views(resources@) =~= all.take(i + 1));
            i += 1;
        }
        assert(all.take(i as int) =~= all);
        list_response(total, self.start_index, resources)
    }
}

} // verus!
