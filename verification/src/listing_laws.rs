//! What holds of a walk over the pages of a list.

use vstd::prelude::*;

use crate::account::UserView;
use crate::group::GroupView;
use crate::json::JsonView;
use crate::listing::{
    group_resources, group_source, user_resources, user_source, GroupSourceView, GroupUserView,
    UserSourceView,
};
use crate::membership::MembershipView;
use crate::scim::{
    first_index, law_walks_show_everything_once, page_of, page_size, walked, SCIM_MAX_RESULTS,
};
use crate::users::{scim_user, SiteView};

verus! {

/// What a request without a filter shows of an organization's members, which the database
/// keeps in a stable order.
pub open spec fn shown_users(
    members: Seq<MembershipView>,
    users: Seq<UserView>,
    site: SiteView,
    start_index: i64,
    count: i64,
) -> Seq<JsonView> {
    match user_source(None, first_index(Some(start_index)), page_size(Some(count))) {
        Ok(UserSourceView::Page { limit, offset }) => user_resources(
            page_of(members, offset + 1, limit),
            users,
            site,
        ),
        _ => Seq::empty(),
    }
}

/// What the first requests of a walk show together: the first starts at 1, and each of the
/// others behind the one before it.
pub open spec fn user_walk(
    members: Seq<MembershipView>,
    users: Seq<UserView>,
    site: SiteView,
    count: i64,
    requests: nat,
) -> Seq<JsonView>
    decreases requests,
{
    if requests == 0 {
        Seq::empty()
    } else {
        user_walk(members, users, site, count, (requests - 1) as nat) + shown_users(
            members,
            users,
            site,
            (1 + (requests - 1) * count) as i64,
            count,
        )
    }
}

/// What a request without a filter shows of an organization's groups, which the database
/// keeps in a stable order.
pub open spec fn shown_groups(
    groups: Seq<GroupView>,
    rows: Seq<GroupUserView>,
    include_members: bool,
    site: SiteView,
    start_index: i64,
    count: i64,
) -> Seq<JsonView> {
    match group_source(None, first_index(Some(start_index)), page_size(Some(count))) {
        Ok(GroupSourceView::Page { limit, offset }) => group_resources(
            page_of(groups, offset + 1, limit),
            rows,
            include_members,
            site,
        ),
        _ => Seq::empty(),
    }
}

/// What the first requests of a walk over the groups show together.
pub open spec fn group_walk(
    groups: Seq<GroupView>,
    rows: Seq<GroupUserView>,
    include_members: bool,
    site: SiteView,
    count: i64,
    requests: nat,
) -> Seq<JsonView>
    decreases requests,
{
    if requests == 0 {
        Seq::empty()
    } else {
        group_walk(groups, rows, include_members, site, count, (requests - 1) as nat)
            + shown_groups(
            groups,
            rows,
            include_members,
            site,
            (1 + (requests - 1) * count) as i64,
            count,
        )
    }
}

/// Whether a walk of so many requests stays within the numbers that a request can carry.
pub open spec fn walkable(count: i64, requests: nat) -> bool {
    &&& 1 <= count <= SCIM_MAX_RESULTS
    &&& 1 + requests * count <= i64::MAX
    &&& 1 + requests * count <= usize::MAX
}

proof fn lemma_request_before(count: i64, requests: nat)
    requires
        walkable(count, requests),
        requests > 0,
    ensures
        walkable(count, (requests - 1) as nat),
        0 <= (requests - 1) * count < requests * count,
{
    assert(0 <= (requests - 1) * count < requests * count) by (nonlinear_arith)
        requires
            requests >= 1,
            count >= 1,
    ;
}

proof fn lemma_user_walk(
    members: Seq<MembershipView>,
    users: Seq<UserView>,
    site: SiteView,
    count: i64,
    requests: nat,
)
    requires
        walkable(count, requests),
    ensures
        user_walk(members, users, site, count, requests) == user_resources(
            walked(members, count as int, requests),
            users,
            site,
        ),
    decreases requests,
{
    let whole = user_resources(walked(members, count as int, requests), users, site);
    if requests > 0 {
        let earlier = (requests - 1) as nat;
        lemma_request_before(count, requests);
        lemma_user_walk(members, users, site, count, earlier);
        let start = 1 + earlier * count;
        assert(first_index(Some(start as i64)) == start);
        assert(page_size(Some(count)) == count);
        assert(whole =~= user_resources(walked(members, count as int, earlier), users, site)
            + user_resources(page_of(members, start, count as int), users, site));
    } else {
        assert(whole =~= Seq::empty());
    }
}

proof fn lemma_group_walk(
    groups: Seq<GroupView>,
    rows: Seq<GroupUserView>,
    include_members: bool,
    site: SiteView,
    count: i64,
    requests: nat,
)
    requires
        walkable(count, requests),
    ensures
        group_walk(groups, rows, include_members, site, count, requests) == group_resources(
            walked(groups, count as int, requests),
            rows,
            include_members,
            site,
        ),
    decreases requests,
{
    let whole = group_resources(
        walked(groups, count as int, requests),
        rows,
        include_members,
        site,
    );
    if requests > 0 {
        let earlier = (requests - 1) as nat;
        lemma_request_before(count, requests);
        lemma_group_walk(groups, rows, include_members, site, count, earlier);
        let start = 1 + earlier * count;
        assert(first_index(Some(start as i64)) == start);
        assert(page_size(Some(count)) == count);
        assert(whole =~= group_resources(
            walked(groups, count as int, earlier),
            rows,
            include_members,
            site,
        ) + group_resources(page_of(groups, start, count as int), rows, include_members, site));
    } else {
        assert(whole =~= Seq::empty());
    }
}

/// Walking the Users of an organization shows every member exactly once: the pages joined are
/// the representations of all members in order, each page is no longer than was asked for, and
/// the first empty page is the first one past the end. A request starts where it asks to.
pub proof fn law_user_walks_show_everybody_once(
    members: Seq<MembershipView>,
    users: Seq<UserView>,
    site: SiteView,
    count: i64,
    requests: nat,
)
    requires
        walkable(count, requests),
    ensures
        requests * count >= members.len() ==> user_walk(members, users, site, count, requests)
            == user_resources(members, users, site),
        ({
            let start = (1 + requests * count) as i64;
            let next = shown_users(members, users, site, start, count);
            &&& first_index(Some(start)) == start
            &&& next.len() <= count
            &&& next.len() == 0 <==> requests * count >= members.len()
        }),
{
    lemma_user_walk(members, users, site, count, requests);
    law_walks_show_everything_once(members, count as int, requests);
    assert(0 <= requests * count) by (nonlinear_arith)
        requires
            requests >= 0,
            count >= 1,
    ;
}

/// Walking the Groups of an organization shows every group exactly once, as
/// [`law_user_walks_show_everybody_once`] says of the Users.
pub proof fn law_group_walks_show_everything_once(
    groups: Seq<GroupView>,
    rows: Seq<GroupUserView>,
    include_members: bool,
    site: SiteView,
    count: i64,
    requests: nat,
)
    requires
        walkable(count, requests),
    ensures
        requests * count >= groups.len() ==> group_walk(
            groups,
            rows,
            include_members,
            site,
            count,
            requests,
        ) == group_resources(groups, rows, include_members, site),
        ({
            let start = (1 + requests * count) as i64;
            let next = shown_groups(groups, rows, include_members, site, start, count);
            &&& first_index(Some(start)) == start
            &&& next.len() <= count
            &&& next.len() == 0 <==> requests * count >= groups.len()
        }),
{
    lemma_group_walk(groups, rows, include_members, site, count, requests);
    law_walks_show_everything_once(groups, count as int, requests);
    assert(0 <= requests * count) by (nonlinear_arith)
        requires
            requests >= 0,
            count >= 1,
    ;
}

/// Each representation of a member carries the member's id.
pub proof fn law_users_are_shown_under_their_ids(
    members: Seq<MembershipView>,
    users: Seq<UserView>,
    site: SiteView,
    i: int,
)
    requires
        0 <= i < members.len(),
    ensures
        user_resources(members, users, site)[i].get("id"@) == Some(JsonView::Text(members[i].uuid)),
{
    reveal_strlit("schemas");
    reveal_strlit("id");
    assert("schemas"@.len() != "id"@.len());
    let shown = user_resources(members, users, site)[i];
    reveal_with_fuel(crate::json::first_named, 3);
    assert(shown->Object_0[0].name == "schemas"@);
    assert(shown->Object_0.drop_first()[0].name == "id"@);
    assert(shown == scim_user(
        members[i],
        crate::listing::account_of(users, members[i].user_uuid)->Some_0,
        site,
    ));
}

} // verus!
