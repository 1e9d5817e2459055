//! SCIM Groups. SCIM owns which groups exist and who is in them; what a group opens
//! stays an administrator's decision in the web vault.
//!
//! Collection access is granted through group membership. So additions to a group
//! that opens collections, and that SCIM does not manage, are refused; removals
//! always proceed, because they reduce access and are the deprovisioning path.
//!
//! A change of a group alternates with database work. [`GroupChange`] decides what to
//! do next; the caller does it and reports what came of it.

use vstd::prelude::*;
use vstd::string::*;

use crate::discovery::GROUP_SCHEMA_URN;
use crate::error::{ScimError, ScimErrorView};
use crate::group::{
    copy_ids, is_listed, Group, GroupView,
};
use crate::json::{field, fields, one_text, Fields, Items, Json, JsonView};

use crate::scim::{
    check_attribute_len, location_url, resource_location, too_long, ScimResponse, ScimResponseView,
    SCIM_MAX_EXTERNAL_ID_LEN, SCIM_MAX_GROUP_MEMBERS, SCIM_MAX_GROUP_MEMBER_OPS,
    SCIM_MAX_GROUP_NAME_LEN,
};
use crate::text::{is_blank, is_blank_text, optional, text_eq, texts};
use crate::users::{Site, SiteView};

verus! {

pub const GROUPS_DISABLED: &'static str = "Group support is disabled on this server (ORG_GROUPS_ENABLED=false)";

pub const UNRESOLVABLE_MEMBER: &'static str = "members must reference existing members of this organization (provision the user first)";

pub const TOO_MANY_OPS: &'static str = "Too many member operations in one request; split the membership update across several requests";

pub const TOO_MANY_MEMBERS: &'static str = "Too many members in one request; split the membership update across several requests";

pub const GROUP_ID_TAKEN: &'static str = "A group with this externalId already exists";

pub const UNMANAGED_ADD: &'static str = "This group grants collection access and is not managed by SCIM (no externalId, or it grants access to all collections); members can be removed from it but not added. Add them in the web vault";

pub const UNMANAGED_ADOPTION: &'static str = "This group grants collection access and is not managed by SCIM; its externalId cannot be set through SCIM. Correlate it in the web vault instead";

pub const UNMANAGED_ABANDONMENT: &'static str = "This group grants collection access and is not managed by SCIM; clearing its externalId would put it permanently out of SCIM's reach. Change it in the web vault";

pub const UNMANAGED_DELETE: &'static str = "This group grants collection access and is not managed by SCIM (no externalId, or it grants access to all collections); it cannot be deleted through SCIM. Delete it in the web vault";

pub const NAME_REQUIRED: &'static str = "displayName is required";

pub const NAME_NOT_CLEARABLE: &'static str = "displayName is required and cannot be cleared";

// ---------------------------------------------------------------------------
// Representation
// ---------------------------------------------------------------------------

/// The member list of a group's representation.
pub open spec fn member_list(ids: Seq<Seq<char>>) -> Seq<JsonView> {
    ids.map_values(
        |id: Seq<char>| JsonView::Object(fields().push(field("value"@, JsonView::Text(id)))),
    )
}

/// The SCIM representation of a group. An externalId is left out where there is none,
/// and the members where they were not asked for.
pub open spec fn scim_group(
    group: GroupView,
    site: SiteView,
    members: Option<Seq<Seq<char>>>,
) -> JsonView {
    let meta = JsonView::Object(
        fields().push(field("resourceType"@, JsonView::Text("Group"@))).push(
            field(
                "location"@,
                JsonView::Text(location_url(site.domain, site.org_uuid, "Groups"@, group.uuid)),
            ),
        ).push(field("created"@, JsonView::Text(group.creation_date))).push(
            field("lastModified"@, JsonView::Text(group.revision_date)),
        ),
    );
    let plain = fields().push(field("schemas"@, one_text(GROUP_SCHEMA_URN@))).push(
        field("id"@, JsonView::Text(group.uuid)),
    ).push(field("displayName"@, JsonView::Text(group.name))).push(field("meta"@, meta));
    let correlated = match group.external_id {
        Some(id) => plain.push(field("externalId"@, JsonView::Text(id))),
        None => plain,
    };
    JsonView::Object(
        match members {
            Some(ids) => correlated.push(field("members"@, JsonView::Array(member_list(ids)))),
            None => correlated,
        },
    )
}

fn member_items(ids: &Vec<String>) -> (r: Json)
    ensures
        r@ == JsonView::Array(member_list(texts(ids@))),
{
    let ghost all = member_list(texts(ids@));
    let mut list = Items::new();
    let mut i: usize = 0;
    assert(all.take(0) =~= list@);
    while i < ids.len()
        invariant
            i <= ids.len(),
            all == member_list(texts(ids@)),
            list@ == all.take(i as int),
        decreases ids.len() - i,
    {
        list = list.with(Fields::new().with_text("value", ids[i].as_str()).done());
        assert(list@ =~= all.take(i + 1));
        i += 1;
    }
    assert(all.take(i as int) =~= all);
    list.done()
}

/// Builds the SCIM representation of a group.
pub fn scim_group_body(group: &Group, site: &Site, members: Option<&Vec<String>>) -> (r: Json)
    ensures
        r@ == scim_group(
            group@,
            site@,
            match members {
                Some(ids) => Some(texts(ids@)),
                None => None,
            },
        ),
{
    let location = resource_location(
        site.domain.as_str(),
        site.org_uuid.as_str(),
        "Groups",
        group.uuid.as_str(),
    );
    let meta = Fields::new().with_text("resourceType", "Group").with_text(
        "location",
        location.as_str(),
    ).with_text("created", group.creation_date.as_str()).with_text(
        "lastModified",
        group.revision_date.as_str(),
    ).done();
    let plain = Fields::new().with_one_text("schemas", GROUP_SCHEMA_URN).with_text(
        "id",
        group.uuid.as_str(),
    ).with_text("displayName", group.name.as_str()).with("meta", meta);
    let correlated = match &group.external_id {
        Some(id) => plain.with_text("externalId", id.as_str()),
        None => plain,
    };
    match members {
        Some(ids) => correlated.with("members", member_items(ids)).done(),
        None => correlated.done(),
    }
}

/// Refuses group requests where the server has no groups: a misconfigured deployment
/// is to be seen in the identity provider.
pub fn check_groups_enabled(enabled: bool) -> (r: Result<(), ScimError>)
    ensures
        match r {
            Ok(_) => enabled,
            Err(e) => !enabled && e@ == ScimErrorView::not_implemented(GROUPS_DISABLED@),
        },
{
    if !enabled {
        return Err(ScimError::not_implemented(GROUPS_DISABLED));
    }
    Ok(())
}

/// Answers a request for one group, from what the database has of it.
pub fn get_group(enabled: bool, group: Option<Group>, members: &Vec<String>, site: &Site) -> (r:
    Result<ScimResponse, ScimError>)
    ensures
        if !enabled {
            r matches Err(e) && e@ == ScimErrorView::not_implemented(GROUPS_DISABLED@)
        } else {
            match group {
                None => r matches Err(e) && e@ == ScimErrorView::not_found(),
                Some(group) => r matches Ok(response) && response@ == ScimResponseView::ok(
                    scim_group(group@, site@, Some(texts(members@))),
                ),
            }
        },
{
    if let Err(e) = check_groups_enabled(enabled) {
        return Err(e);
    }
    match group {
        None => Err(ScimError::not_found()),
        Some(group) => Ok(ScimResponse::ok(scim_group_body(&group, site, Some(members)))),
    }
}

// ---------------------------------------------------------------------------
// What has to be looked up
// ---------------------------------------------------------------------------

/// A fact that a decision needs from the database.
#[derive(Debug)]
pub enum GroupLookup {
    /// Which of the ids are members of the organization.
    ResolveMembers(Vec<String>),
    /// Which group of the organization has an externalId.
    FindHolder(String),
    /// Whether collections are granted to the group.
    HasCollections,
    /// Who is in the group.
    ListMembers,
}

/// The mathematical counterpart of [`GroupLookup`].
pub ghost enum GroupLookupView {
    ResolveMembers(Seq<Seq<char>>),
    FindHolder(Seq<char>),
    HasCollections,
    ListMembers,
}

impl View for GroupLookup {
    type V = GroupLookupView;

    open spec fn view(&self) -> GroupLookupView {
        match self {
            GroupLookup::ResolveMembers(ids) => GroupLookupView::ResolveMembers(texts(ids@)),
            GroupLookup::FindHolder(id) => GroupLookupView::FindHolder(id@),
            GroupLookup::HasCollections => GroupLookupView::HasCollections,
            GroupLookup::ListMembers => GroupLookupView::ListMembers,
        }
    }
}

/// Why there is no decision to go on yet: it is a refusal, or needs a fact.
#[derive(Debug)]
pub enum Pending {
    Refused(ScimError),
    Needs(GroupLookup),
}

/// The mathematical counterpart of [`Pending`].
pub ghost enum PendingView {
    Refused(ScimErrorView),
    Needs(GroupLookupView),
}

impl View for Pending {
    type V = PendingView;

    open spec fn view(&self) -> PendingView {
        match self {
            Pending::Refused(e) => PendingView::Refused(e@),
            Pending::Needs(lookup) => PendingView::Needs(lookup@),
        }
    }
}

/// The view of a check.
pub open spec fn checked(r: Result<(), Pending>) -> Result<(), PendingView> {
    match r {
        Ok(_) => Ok(()),
        Err(p) => Err(p@),
    }
}

/// What is known of a group and a request so far.
#[derive(Debug)]
pub struct GroupFacts {
    /// Those of the ids in the request that are members of the organization.
    pub known: Option<Vec<String>>,
    /// The group that has the externalId in the request.
    pub holder: Option<Option<String>>,
    /// Whether collections are granted to the group.
    pub has_collections: Option<bool>,
    /// Who is in the group.
    pub members: Option<Vec<String>>,
}

/// The mathematical counterpart of [`GroupFacts`].
#[verifier::ext_equal]
pub ghost struct GroupFactsView {
    pub known: Option<Seq<Seq<char>>>,
    pub holder: Option<Option<Seq<char>>>,
    pub has_collections: Option<bool>,
    pub members: Option<Seq<Seq<char>>>,
}

impl View for GroupFacts {
    type V = GroupFactsView;

    open spec fn view(&self) -> GroupFactsView {
        GroupFactsView {
            known: match self.known {
                Some(ids) => Some(texts(ids@)),
                None => None,
            },
            holder: match self.holder {
                Some(found) => Some(optional(found)),
                None => None,
            },
            has_collections: self.has_collections,
            members: match self.members {
                Some(ids) => Some(texts(ids@)),
                None => None,
            },
        }
    }
}

impl GroupFactsView {
    /// Nothing is known.
    pub open spec fn nothing() -> Self {
        GroupFactsView { known: None, holder: None, has_collections: None, members: None }
    }
}

impl GroupFacts {
    /// Nothing is known.
    pub fn nothing() -> (r: Self)
        ensures
            r@ == GroupFactsView::nothing(),
    {
        GroupFacts { known: None, holder: None, has_collections: None, members: None }
    }
}

// ---------------------------------------------------------------------------
// Guards
// ---------------------------------------------------------------------------

/// Whether a group hands its members collection access.
pub open spec fn confers_access(group: GroupView, facts: GroupFactsView) -> Result<
    bool,
    PendingView,
> {
    if group.access_all {
        Ok(true)
    } else {
        match facts.has_collections {
            Some(granted) => Ok(granted),
            None => Err(PendingView::Needs(GroupLookupView::HasCollections)),
        }
    }
}

/// Whether SCIM may add members to a group: never where it opens everything; where it
/// opens some collections, only if an externalId shows that SCIM manages it.
pub open spec fn may_add(group: GroupView, facts: GroupFactsView) -> Result<bool, PendingView> {
    if group.access_all {
        Ok(false)
    } else if group.external_id is Some {
        Ok(true)
    } else {
        match confers_access(group, facts) {
            Ok(granted) => Ok(!granted),
            Err(p) => Err(p),
        }
    }
}

/// A refusal for the client to see.
pub open spec fn refusal<T>(scim_type: Seq<char>, detail: Seq<char>) -> Result<T, PendingView> {
    Err(PendingView::Refused(ScimErrorView::bad_request(scim_type, detail)))
}

/// Refuses an addition to a group that SCIM does not manage.
pub open spec fn unmanaged_add(group: GroupView, facts: GroupFactsView) -> Result<(), PendingView> {
    match may_add(group, facts) {
        Ok(allowed) => if allowed {
            Ok(())
        } else {
            refusal("mutability"@, UNMANAGED_ADD@)
        },
        Err(p) => Err(p),
    }
}

/// Refuses to set a first externalId on a group that confers access: that write is
/// what makes a group SCIM's own.
pub open spec fn adoption(group: GroupView, external_id: Seq<char>, facts: GroupFactsView) -> Result<
    (),
    PendingView,
> {
    if is_blank_text(external_id) || group.external_id is Some {
        Ok(())
    } else {
        match confers_access(group, facts) {
            Ok(granted) => if granted {
                refusal("mutability"@, UNMANAGED_ADOPTION@)
            } else {
                Ok(())
            },
            Err(p) => Err(p),
        }
    }
}

/// Refuses to clear the externalId of a group that confers access: it could never be
/// set again.
pub open spec fn abandonment(group: GroupView, facts: GroupFactsView) -> Result<(), PendingView> {
    if group.external_id is None {
        Ok(())
    } else {
        match confers_access(group, facts) {
            Ok(granted) => if granted {
                refusal("mutability"@, UNMANAGED_ABANDONMENT@)
            } else {
                Ok(())
            },
            Err(p) => Err(p),
        }
    }
}

/// The error of an externalId that another group has.
pub open spec fn group_id_taken() -> ScimErrorView {
    ScimErrorView::conflict("uniqueness"@, GROUP_ID_TAKEN@)
}

/// Refuses an externalId that is too long, or that another group has. Repeating the
/// group's own is fine.
pub open spec fn external_id_available(
    group: GroupView,
    external_id: Seq<char>,
    facts: GroupFactsView,
) -> Result<(), PendingView> {
    if external_id.len() > SCIM_MAX_EXTERNAL_ID_LEN {
        Err(PendingView::Refused(too_long("externalId"@, SCIM_MAX_EXTERNAL_ID_LEN as nat)))
    } else {
        match facts.holder {
            None => Err(PendingView::Needs(GroupLookupView::FindHolder(external_id))),
            Some(found) => if found matches Some(id) && id != group.uuid {
                Err(PendingView::Refused(group_id_taken()))
            } else {
                Ok(())
            },
        }
    }
}

/// What a new externalId for an existing group has to pass. A blank one clears it.
pub open spec fn external_id_change(
    group: GroupView,
    external_id: Option<Seq<char>>,
    facts: GroupFactsView,
) -> Result<(), PendingView> {
    match external_id {
        None => Ok(()),
        Some(id) => if is_blank_text(id) {
            abandonment(group, facts)
        } else {
            match external_id_available(group, id, facts) {
                Ok(_) => adoption(group, id, facts),
                Err(p) => Err(p),
            }
        },
    }
}

/// What a new name for an existing group has to pass.
pub open spec fn name_change(display_name: Option<Seq<char>>) -> Result<(), PendingView> {
    match display_name {
        None => Ok(()),
        Some(name) => if is_blank_text(name) {
            refusal("invalidValue"@, NAME_NOT_CLEARABLE@)
        } else if name.len() > SCIM_MAX_GROUP_NAME_LEN {
            Err(PendingView::Refused(too_long("displayName"@, SCIM_MAX_GROUP_NAME_LEN as nat)))
        } else {
            Ok(())
        },
    }
}

/// Whether every id is a member of the organization.
pub open spec fn all_known(values: Seq<Seq<char>>, known: Seq<Seq<char>>) -> bool {
    forall|i: int| 0 <= i < values.len() ==> known.contains(#[trigger] values[i])
}

/// The one answer to every id that is no member of the organization: the same for one
/// that does not exist and for one of another organization, so that the endpoint
/// cannot be used to probe for ids.
pub open spec fn unresolvable() -> ScimErrorView {
    ScimErrorView::bad_request("invalidValue"@, UNRESOLVABLE_MEMBER@)
}

/// Refuses ids that are not members of the organization.
pub open spec fn resolution(values: Seq<Seq<char>>, facts: GroupFactsView) -> Result<
    (),
    PendingView,
> {
    if values.len() == 0 {
        Ok(())
    } else {
        match facts.known {
            None => Err(PendingView::Needs(GroupLookupView::ResolveMembers(values))),
            Some(known) => if all_known(values, known) {
                Ok(())
            } else {
                Err(PendingView::Refused(unresolvable()))
            },
        }
    }
}

/// Refuses more ids than one request may carry.
pub open spec fn count_limit(count: nat) -> Result<(), PendingView> {
    if count > SCIM_MAX_GROUP_MEMBERS {
        refusal("invalidValue"@, TOO_MANY_MEMBERS@)
    } else {
        Ok(())
    }
}

/// Whether this group hands its members collection access.
pub fn group_confers_access(group: &Group, facts: &GroupFacts) -> (r: Result<bool, Pending>)
    ensures
        match r {
            Ok(granted) => confers_access(group@, facts@) == Ok::<bool, PendingView>(granted),
            Err(p) => confers_access(group@, facts@) == Err::<bool, PendingView>(p@),
        },
{
    if group.access_all {
        return Ok(true);
    }
    match facts.has_collections {
        Some(granted) => Ok(granted),
        None => Err(Pending::Needs(GroupLookup::HasCollections)),
    }
}

/// Whether SCIM may add members to this group.
pub fn scim_may_add_members(group: &Group, facts: &GroupFacts) -> (r: Result<bool, Pending>)
    ensures
        match r {
            Ok(allowed) => may_add(group@, facts@) == Ok::<bool, PendingView>(allowed),
            Err(p) => may_add(group@, facts@) == Err::<bool, PendingView>(p@),
        },
{
    if group.access_all {
        return Ok(false);
    }
    if group.external_id.is_some() {
        return Ok(true);
    }
    match group_confers_access(group, facts) {
        Ok(granted) => Ok(!granted),
        Err(p) => Err(p),
    }
}

/// Refuses an addition to a group that SCIM does not manage.
pub fn reject_unmanaged_group_add(group: &Group, facts: &GroupFacts) -> (r: Result<(), Pending>)
    ensures
        checked(r) == unmanaged_add(group@, facts@),
{
    match scim_may_add_members(group, facts) {
        Ok(allowed) => if allowed {
            Ok(())
        } else {
            Err(Pending::Refused(ScimError::bad_request("mutability", UNMANAGED_ADD)))
        },
        Err(p) => Err(p),
    }
}

/// Refuses to set a first externalId on a group that confers access.
pub fn reject_privileged_group_adoption(group: &Group, external_id: &str, facts: &GroupFacts) -> (r:
    Result<(), Pending>)
    ensures
        checked(r) == adoption(group@, external_id@, facts@),
{
    if is_blank(external_id) || group.external_id.is_some() {
        return Ok(());
    }
    match group_confers_access(group, facts) {
        Ok(granted) => if granted {
            Err(Pending::Refused(ScimError::bad_request("mutability", UNMANAGED_ADOPTION)))
        } else {
            Ok(())
        },
        Err(p) => Err(p),
    }
}

/// Refuses to clear the externalId of a group that confers access.
pub fn reject_privileged_group_abandonment(group: &Group, facts: &GroupFacts) -> (r: Result<
    (),
    Pending,
>)
    ensures
        checked(r) == abandonment(group@, facts@),
{
    if group.external_id.is_none() {
        return Ok(());
    }
    match group_confers_access(group, facts) {
        Ok(granted) => if granted {
            Err(Pending::Refused(ScimError::bad_request("mutability", UNMANAGED_ABANDONMENT)))
        } else {
            Ok(())
        },
        Err(p) => Err(p),
    }
}

/// Refuses an externalId that is too long, or that another group has.
pub fn check_external_id_available(group: &Group, external_id: &str, facts: &GroupFacts) -> (r:
    Result<(), Pending>)
    ensures
        checked(r) == external_id_available(group@, external_id@, facts@),
{
    if let Err(e) = check_attribute_len("externalId", external_id, SCIM_MAX_EXTERNAL_ID_LEN) {
        return Err(Pending::Refused(e));
    }
    match &facts.holder {
        None => Err(Pending::Needs(GroupLookup::FindHolder(external_id.to_owned()))),
        Some(Some(id)) => if text_eq(id.as_str(), group.uuid.as_str()) {
            Ok(())
        } else {
            Err(Pending::Refused(ScimError::conflict("uniqueness", GROUP_ID_TAKEN)))
        },
        Some(None) => Ok(()),
    }
}

pub(crate) fn check_external_id_change(group: &Group, external_id: &Option<String>, facts: &GroupFacts) -> (r:
    Result<(), Pending>)
    ensures
        checked(r) == external_id_change(group@, optional(*external_id), facts@),
{
    match external_id {
        None => Ok(()),
        Some(id) => {
            if is_blank(id.as_str()) {
                return reject_privileged_group_abandonment(group, facts);
            }
            match check_external_id_available(group, id.as_str(), facts) {
                Ok(_) => reject_privileged_group_adoption(group, id.as_str(), facts),
                Err(p) => Err(p),
            }
        },
    }
}

pub(crate) fn check_name_change(display_name: &Option<String>) -> (r: Result<(), Pending>)
    ensures
        checked(r) == name_change(optional(*display_name)),
{
    match display_name {
        None => Ok(()),
        Some(name) => {
            if is_blank(name.as_str()) {
                return Err(
                    Pending::Refused(ScimError::bad_request("invalidValue", NAME_NOT_CLEARABLE)),
                );
            }
            match check_attribute_len("displayName", name.as_str(), SCIM_MAX_GROUP_NAME_LEN) {
                Ok(_) => Ok(()),
                Err(e) => Err(Pending::Refused(e)),
            }
        },
    }
}

fn are_known(values: &Vec<String>, known: &Vec<String>) -> (r: bool)
    ensures
        r == all_known(texts(values@), texts(known@)),
{
    let ghost all = texts(values@);
    let mut i: usize = 0;
    while i < values.len()
        invariant
            i <= values.len(),
            all == texts(values@),
            forall|j: int| 0 <= j < i ==> texts(known@).contains(#[trigger] all[j]),
        decreases values.len() - i,
    {
        if !is_listed(known, &values[i]) {
            assert(!texts(known@).contains(all[i as int]));
            return false;
        }
        i += 1;
    }
    true
}

/// Refuses ids that are not members of the organization.
pub fn resolve_members(values: &Vec<String>, facts: &GroupFacts) -> (r: Result<(), Pending>)
    ensures
        checked(r) == resolution(texts(values@), facts@),
{
    if values.len() == 0 {
        return Ok(());
    }
    match &facts.known {
        None => Err(Pending::Needs(GroupLookup::ResolveMembers(copy_ids(values)))),
        Some(known) => if are_known(values, known) {
            Ok(())
        } else {
            Err(Pending::Refused(ScimError::bad_request("invalidValue", UNRESOLVABLE_MEMBER)))
        },
    }
}

/// Refuses more member operations than one request may carry. They are bounded apart
/// from the ids, because an operation on no ids counts nothing there.
pub fn check_member_op_count(ops: usize) -> (r: Result<(), ScimError>)
    ensures
        match r {
            Ok(_) => ops <= SCIM_MAX_GROUP_MEMBER_OPS,
            Err(e) => ops > SCIM_MAX_GROUP_MEMBER_OPS && e@ == ScimErrorView::bad_request(
                "invalidValue"@,
                TOO_MANY_OPS@,
            ),
        },
{
    if ops > SCIM_MAX_GROUP_MEMBER_OPS {
        return Err(ScimError::bad_request("invalidValue", TOO_MANY_OPS));
    }
    Ok(())
}

/// Refuses more ids than one request may carry, before any of them is looked up.
pub fn check_member_count(count: usize) -> (r: Result<(), ScimError>)
    ensures
        match r {
            Ok(_) => count <= SCIM_MAX_GROUP_MEMBERS,
            Err(e) => count > SCIM_MAX_GROUP_MEMBERS && e@ == ScimErrorView::bad_request(
                "invalidValue"@,
                TOO_MANY_MEMBERS@,
            ),
        },
{
    if count > SCIM_MAX_GROUP_MEMBERS {
        return Err(ScimError::bad_request("invalidValue", TOO_MANY_MEMBERS));
    }
    Ok(())
}

} // verus!
