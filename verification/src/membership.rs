//! Organization memberships and the encoding of revocation.

use vstd::prelude::*;
use vstd::string::*;

use crate::text::optional;

verus! {

/// The distance between the status of an active member and of the same member revoked.
pub const ACTIVATE_REVOKE_DIFF: i32 = 128;

/// Where a member stands. `Revoked` marks the border below which a stored status
/// is a revoked one: it is never stored itself.
#[derive(Clone, Copy, Debug, PartialEq, Eq, Structural)]
pub enum MembershipStatus {
    Revoked,
    Invited,
    Accepted,
    Confirmed,
}

/// The stored value of a status.
pub open spec fn status_code(status: MembershipStatus) -> int {
    match status {
        MembershipStatus::Revoked => -1,
        MembershipStatus::Invited => 0,
        MembershipStatus::Accepted => 1,
        MembershipStatus::Confirmed => 2,
    }
}

/// The status that a stored value stands for. A revoked value stands for none.
pub open spec fn status_of(code: i32) -> Option<MembershipStatus> {
    if code == 0 {
        Some(MembershipStatus::Invited)
    } else if code == 1 {
        Some(MembershipStatus::Accepted)
    } else if code == 2 {
        Some(MembershipStatus::Confirmed)
    } else {
        None
    }
}

impl MembershipStatus {
    /// The stored value of the status.
    pub fn code(self) -> (r: i32)
        ensures
            r == status_code(self),
    {
        match self {
            MembershipStatus::Revoked => -1,
            MembershipStatus::Invited => 0,
            MembershipStatus::Accepted => 1,
            MembershipStatus::Confirmed => 2,
        }
    }

    /// Reads a stored value.
    pub fn from_i32(code: i32) -> (r: Option<MembershipStatus>)
        ensures
            r == status_of(code),
    {
        match code {
            0 => Some(MembershipStatus::Invited),
            1 => Some(MembershipStatus::Accepted),
            2 => Some(MembershipStatus::Confirmed),
            _ => None,
        }
    }
}

/// What a member may do.
#[derive(Clone, Copy, Debug, PartialEq, Eq, Structural)]
pub enum MembershipType {
    Owner,
    Admin,
    User,
    Manager,
}

/// The stored value of a type.
pub open spec fn type_code(atype: MembershipType) -> int {
    match atype {
        MembershipType::Owner => 0,
        MembershipType::Admin => 1,
        MembershipType::User => 2,
        MembershipType::Manager => 3,
    }
}

impl MembershipType {
    /// The stored value of the type.
    pub fn code(self) -> (r: i32)
        ensures
            r == type_code(self),
    {
        match self {
            MembershipType::Owner => 0,
            MembershipType::Admin => 1,
            MembershipType::User => 2,
            MembershipType::Manager => 3,
        }
    }
}

/// A person's membership of an organization. Its uuid is the id of the SCIM User.
#[derive(Debug)]
pub struct Membership {
    pub uuid: String,
    pub user_uuid: String,
    pub org_uuid: String,
    pub invited_by_email: Option<String>,
    pub access_all: bool,
    /// The organization key, wrapped for the member. Nothing on the server can
    /// restore it once lost.
    pub akey: String,
    pub status: i32,
    pub atype: i32,
    pub external_id: Option<String>,
}

/// The mathematical counterpart of [`Membership`].
#[verifier::ext_equal]
pub ghost struct MembershipView {
    pub uuid: Seq<char>,
    pub user_uuid: Seq<char>,
    pub org_uuid: Seq<char>,
    pub invited_by_email: Option<Seq<char>>,
    pub access_all: bool,
    pub akey: Seq<char>,
    pub status: int,
    pub atype: int,
    pub external_id: Option<Seq<char>>,
}

impl View for Membership {
    type V = MembershipView;

    open spec fn view(&self) -> MembershipView {
        MembershipView {
            uuid: self.uuid@,
            user_uuid: self.user_uuid@,
            org_uuid: self.org_uuid@,
            invited_by_email: optional(self.invited_by_email),
            access_all: self.access_all,
            akey: self.akey@,
            status: self.status as int,
            atype: self.atype as int,
            external_id: optional(self.external_id),
        }
    }
}

/// How an externalId is stored: an empty one is stored as absent.
pub open spec fn stored_external_id(external_id: Option<Seq<char>>) -> Option<Seq<char>> {
    match external_id {
        Some(id) => if id.len() == 0 {
            None
        } else {
            Some(id)
        },
        None => None,
    }
}

impl MembershipView {
    /// Whether the stored status is one that the encoding knows.
    pub open spec fn well_formed(self) -> bool {
        ||| 0 <= self.status <= 2
        ||| -ACTIVATE_REVOKE_DIFF <= self.status <= 2 - ACTIVATE_REVOKE_DIFF
    }

    /// Whether the member is not revoked.
    pub open spec fn active(self) -> bool {
        self.status > status_code(MembershipStatus::Revoked)
    }

    /// Whether the member holds an administrative role.
    pub open spec fn privileged(self) -> bool {
        self.atype != type_code(MembershipType::User)
    }

    /// Whether the member owns the organization.
    pub open spec fn owner(self) -> bool {
        self.atype == type_code(MembershipType::Owner)
    }

    /// The member after a revocation.
    pub open spec fn revoked(self) -> Self {
        if self.active() {
            MembershipView { status: self.status - ACTIVATE_REVOKE_DIFF, ..self }
        } else {
            self
        }
    }

    /// The member after a restoration.
    pub open spec fn restored(self) -> Self {
        if self.status < status_code(MembershipStatus::Invited) {
            MembershipView { status: self.status + ACTIVATE_REVOKE_DIFF, ..self }
        } else {
            self
        }
    }

    /// The member under another externalId.
    pub open spec fn correlated(self, external_id: Option<Seq<char>>) -> Self {
        MembershipView { external_id: stored_external_id(external_id), ..self }
    }

    /// Whether two states of a membership differ in nothing but what SCIM owns:
    /// its status and its externalId.
    pub open spec fn same_grant(self, other: Self) -> bool {
        &&& self.uuid == other.uuid
        &&& self.user_uuid == other.user_uuid
        &&& self.org_uuid == other.org_uuid
        &&& self.invited_by_email == other.invited_by_email
        &&& self.access_all == other.access_all
        &&& self.akey == other.akey
        &&& self.atype == other.atype
    }
}

fn copy_optional(s: &Option<String>) -> (r: Option<String>)
    ensures
        optional(r) == optional(*s),
{
    match s {
        Some(text) => Some(text.clone()),
        None => None,
    }
}

impl Membership {
    /// A new membership: an ordinary one, without a key.
    pub fn new(
        uuid: String,
        user_uuid: String,
        org_uuid: String,
        invited_by_email: Option<String>,
    ) -> (r: Self)
        ensures
            r@ == (MembershipView {
                uuid: uuid@,
                user_uuid: user_uuid@,
                org_uuid: org_uuid@,
                invited_by_email: optional(invited_by_email),
                access_all: false,
                akey: Seq::empty(),
                status: status_code(MembershipStatus::Accepted),
                atype: type_code(MembershipType::User),
                external_id: None,
            }),
    {
        Membership {
            uuid,
            user_uuid,
            org_uuid,
            invited_by_email,
            access_all: false,
            akey: String::new(),
            status: MembershipStatus::Accepted.code(),
            atype: MembershipType::User.code(),
            external_id: None,
        }
    }

    /// The same membership once more.
    pub fn copy(&self) -> (r: Self)
        ensures
            r@ == self@,
    {
        Membership {
            uuid: self.uuid.clone(),
            user_uuid: self.user_uuid.clone(),
            org_uuid: self.org_uuid.clone(),
            invited_by_email: copy_optional(&self.invited_by_email),
            access_all: self.access_all,
            akey: self.akey.clone(),
            status: self.status,
            atype: self.atype,
            external_id: copy_optional(&self.external_id),
        }
    }

    /// Revokes an active member, and says whether there was anything to revoke.
    pub fn revoke(&mut self) -> (r: bool)
        ensures
            r == old(self)@.active(),
            final(self)@ == old(self)@.revoked(),
    {
        if self.status > MembershipStatus::Revoked.code() {
            self.status = self.status - ACTIVATE_REVOKE_DIFF;
            true
        } else {
            false
        }
    }

    /// Restores a revoked member, and says whether there was anything to restore.
    pub fn restore(&mut self) -> (r: bool)
        ensures
            r == (old(self)@.status < status_code(MembershipStatus::Invited)),
            final(self)@ == old(self)@.restored(),
    {
        if self.status < MembershipStatus::Invited.code() {
            self.status = self.status + ACTIVATE_REVOKE_DIFF;
            true
        } else {
            false
        }
    }

    /// Sets the externalId. An empty one is stored as absent.
    pub fn set_external_id(&mut self, external_id: Option<String>)
        ensures
            final(self)@ == old(self)@.correlated(optional(external_id)),
    {
        self.external_id = match external_id {
            Some(id) => if id.as_str().is_empty() {
                None
            } else {
                Some(id)
            },
            None => None,
        };
    }
}

/// Revocation is lossless: restoring a revoked member gives back the membership as
/// it was, key and role included, and revoking a restored one revokes it again.
pub proof fn law_revocation_is_lossless(member: MembershipView)
    requires
        member.well_formed(),
    ensures
        member.active() ==> member.revoked().restored() == member,
        !member.active() ==> member.restored().revoked() == member,
        member.revoked().same_grant(member),
        member.restored().same_grant(member),
        member.revoked().external_id == member.external_id,
        member.restored().external_id == member.external_id,
{
}

/// Revoking and restoring are idempotent, and do what they say.
pub proof fn law_revocation_is_idempotent(member: MembershipView)
    requires
        member.well_formed(),
    ensures
        !member.revoked().active(),
        member.restored().active(),
        member.revoked().revoked() == member.revoked(),
        member.restored().restored() == member.restored(),
        member.revoked().well_formed(),
        member.restored().well_formed(),
{
}

/// A revoked value is never read as a status: what the reader knows is active.
pub proof fn law_revoked_values_are_no_status(member: MembershipView)
    requires
        member.well_formed(),
        !member.active(),
    ensures
        status_of(member.status as i32) is None,
{
}

/// The stored values: revoked below zero, and invited, accepted and confirmed in that order
/// from zero on; owners, administrators, users and managers in that order from zero on. What
/// is stored for a status is read as that status, and nothing else is.
pub proof fn law_stored_values(status: MembershipStatus, code: i32)
    ensures
        status_code(MembershipStatus::Revoked) == -1,
        status_code(MembershipStatus::Invited) == 0,
        status_code(MembershipStatus::Accepted) == 1,
        status_code(MembershipStatus::Confirmed) == 2,
        type_code(MembershipType::Owner) == 0,
        type_code(MembershipType::Admin) == 1,
        type_code(MembershipType::User) == 2,
        type_code(MembershipType::Manager) == 3,
        status_of(code) == Some(status) <==> !(status is Revoked) && status_code(status) == code,
        status_of(code) is Some <==> 0 <= code <= 2,
{
}

/// What is read of a membership's stored values: it is active from the lowest status on, holds
/// an administrative role unless it is a plain user, and is an owner by the lowest type.
/// Revoking and restoring move the status by the same distance and touch nothing else.
pub proof fn law_memberships_are_read_by_value(member: MembershipView)
    ensures
        member.active() <==> member.status >= 0,
        member.privileged() <==> member.atype != 2,
        member.owner() <==> member.atype == 0,
        member.revoked() == (if member.status >= 0 {
            MembershipView { status: member.status - 128, ..member }
        } else {
            member
        }),
        member.restored() == (if member.status < 0 {
            MembershipView { status: member.status + 128, ..member }
        } else {
            member
        }),
{
}

/// Giving a member an externalId gives it that one, an empty one none, and changes nothing
/// else.
pub proof fn law_external_ids_are_stored_as_given(member: MembershipView, id: Seq<char>)
    ensures
        member.correlated(Some(id)).external_id == (if id.len() > 0 {
            Some(id)
        } else {
            None
        }),
        member.correlated(None).external_id is None,
        member.correlated(Some(id)).same_grant(member),
        member.correlated(None).same_grant(member),
        member.correlated(Some(id)).status == member.status,
        member.correlated(None).status == member.status,
{
}

} // verus!
