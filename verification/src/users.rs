//! SCIM Users. The id of a SCIM User is the id of an organization membership, not
//! of the person's account: SCIM is scoped to an organization, and one person can
//! belong to several.
//!
//! Deprovisioning revokes a membership and never deletes it: the row and its key
//! survive, so that a restore is lossless and needs no new confirmation.
//!
//! A change of a membership alternates with database work. [`UserChange`] decides
//! what to do next; the caller does it and reports what came of it.

use vstd::prelude::*;
use vstd::string::*;

use crate::account::{EventType, User, UserView};
use crate::discovery::USER_SCHEMA_URN;
use crate::error::{ScimError, ScimErrorView};
use crate::json::{field, fields, items, one_text, optional_text_view, Fields, Items, Json, JsonView};
use crate::membership::{status_code, Membership, MembershipStatus, MembershipType, MembershipView};
use crate::models::ScimUserRequest;
use crate::patch::{parse_user_patch, user_patch, PatchOp, UserPatch, UserPatchView};
use crate::scim::{
    check_attribute_len, location_url, resource_location, too_long, ScimJson, ScimResponse,
    ScimResponseView, SCIM_MAX_EXTERNAL_ID_LEN,
};
use crate::text::{optional, text_eq};

verus! {

pub const PRIVILEGED_GRANT: &'static str = "This member holds an administrative role; SCIM can deprovision it but cannot reinstate or link it. Restore this member in the web vault";

pub const LAST_OWNER: &'static str = "Cannot revoke the last owner of the organization";

pub const EXTERNAL_ID_TAKEN: &'static str = "A member with this externalId already exists";

pub const BLOCKED_BY_POLICY: &'static str = "Restore is blocked by an organization policy";

/// What a request is answered within: the server's URL, the organization of the
/// credential, and whether the server sends mail.
#[derive(Debug)]
pub struct Site {
    pub domain: String,
    pub org_uuid: String,
    pub mail_enabled: bool,
}

/// The mathematical counterpart of [`Site`].
#[verifier::ext_equal]
pub ghost struct SiteView {
    pub domain: Seq<char>,
    pub org_uuid: Seq<char>,
    pub mail_enabled: bool,
}

impl View for Site {
    type V = SiteView;

    open spec fn view(&self) -> SiteView {
        SiteView {
            domain: self.domain@,
            org_uuid: self.org_uuid@,
            mail_enabled: self.mail_enabled,
        }
    }
}

/// Whether a member is not revoked. Revoked statuses are stored below the border
/// value, so this never compares for equality.
pub fn membership_active(member: &Membership) -> (r: bool)
    ensures
        r == member@.active(),
{
    member.status > MembershipStatus::Revoked.code()
}

/// Whether a member holds an administrative role.
pub fn is_privileged(member: &Membership) -> (r: bool)
    ensures
        r == member@.privileged(),
{
    member.atype != MembershipType::User.code()
}

fn is_owner(member: &Membership) -> (r: bool)
    ensures
        r == member@.owner(),
{
    member.atype == MembershipType::Owner.code()
}

/// The error of an attempt to reinstate or link an administrator.
pub open spec fn privileged_grant() -> ScimErrorView {
    ScimErrorView::bad_request("mutability"@, PRIVILEGED_GRANT@)
}

/// Refuses to reinstate or link an administrator. SCIM cannot create or promote
/// one, so this closes the grant-shaped path that is left. Revocation is not
/// refused: deprovisioning an administrator is a legitimate offboard.
pub fn reject_privileged_grant(member: &Membership) -> (r: Result<(), ScimError>)
    ensures
        match r {
            Ok(_) => !member@.privileged(),
            Err(e) => member@.privileged() && e@ == privileged_grant(),
        },
{
    if is_privileged(member) {
        return Err(ScimError::bad_request("mutability", PRIVILEGED_GRANT));
    }
    Ok(())
}

/// The error of an attempt to revoke the last owner.
pub open spec fn last_owner() -> ScimErrorView {
    ScimErrorView::bad_request("mutability"@, LAST_OWNER@)
}

/// Never leaves an organization without an owner. `active_owners` counts the active
/// owners in any status.
pub fn reject_last_owner_revoke(member: &Membership, active_owners: i64) -> (r: Result<(), ScimError>)
    ensures
        match r {
            Ok(_) => !(member@.owner() && active_owners <= 1),
            Err(e) => member@.owner() && active_owners <= 1 && e@ == last_owner(),
        },
{
    if is_owner(member) && active_owners <= 1 {
        return Err(ScimError::bad_request("mutability", LAST_OWNER));
    }
    Ok(())
}

/// The SCIM representation of a member.
pub open spec fn scim_user(member: MembershipView, user: UserView, site: SiteView) -> JsonView {
    JsonView::Object(
        fields().push(field("schemas"@, one_text(USER_SCHEMA_URN@))).push(
            field("id"@, JsonView::Text(member.uuid)),
        ).push(field("externalId"@, optional_text_view(member.external_id))).push(
            field("userName"@, JsonView::Text(user.email)),
        ).push(field("displayName"@, JsonView::Text(user.name))).push(
            field("active"@, JsonView::Bool(member.active())),
        ).push(
            field(
                "emails"@,
                JsonView::Array(
                    items().push(
                        JsonView::Object(
                            fields().push(field("value"@, JsonView::Text(user.email))).push(
                                field("primary"@, JsonView::Bool(true)),
                            ).push(field("type"@, JsonView::Text("work"@))),
                        ),
                    ),
                ),
            ),
        ).push(
            field(
                "meta"@,
                JsonView::Object(
                    fields().push(field("resourceType"@, JsonView::Text("User"@))).push(
                        field(
                            "location"@,
                            JsonView::Text(
                                location_url(site.domain, site.org_uuid, "Users"@, member.uuid),
                            ),
                        ),
                    ),
                ),
            ),
        ),
    )
}

/// Builds the SCIM representation of a member.
pub fn to_scim_user(member: &Membership, user: &User, site: &Site) -> (r: Json)
    ensures
        r@ == scim_user(member@, user@, site@),
{
    let location = resource_location(
        site.domain.as_str(),
        site.org_uuid.as_str(),
        "Users",
        member.uuid.as_str(),
    );
    let email = Fields::new().with_text("value", user.email.as_str()).with_bool(
        "primary",
        true,
    ).with_text("type", "work").done();
    let meta = Fields::new().with_text("resourceType", "User").with_text(
        "location",
        location.as_str(),
    ).done();
    Fields::new().with_one_text("schemas", USER_SCHEMA_URN).with_text(
        "id",
        member.uuid.as_str(),
    ).with("externalId", Json::optional_text(&member.external_id)).with_text(
        "userName",
        user.email.as_str(),
    ).with_text("displayName", user.name.as_str()).with_bool(
        "active",
        membership_active(member),
    ).with("emails", Items::new().with(email).done()).with("meta", meta).done()
}

/// Answers a request for one member, from what the database has of it.
pub fn get_user(member: Option<Membership>, user: Option<User>, site: &Site) -> (r: Result<
    ScimResponse,
    ScimError,
>)
    ensures
        match member {
            None => r matches Err(e) && e@ == ScimErrorView::not_found(),
            Some(member) => match user {
                None => r matches Err(e) && e@ == ScimErrorView::internal(),
                Some(user) => r matches Ok(response) && response@ == ScimResponseView::ok(
                    scim_user(member@, user@, site@),
                ),
            },
        },
{
    match member {
        None => Err(ScimError::not_found()),
        Some(member) => match user {
            None => Err(ScimError::internal()),
            Some(user) => Ok(ScimResponse::ok(to_scim_user(&member, &user, site))),
        },
    }
}

// ---------------------------------------------------------------------------
// Changing a member
// ---------------------------------------------------------------------------

/// A piece of work that a change of a member asks for.
#[derive(Debug)]
pub enum UserCommand {
    /// Find the member of the organization that has an externalId.
    FindByExternalId(String),
    /// Count the organization's active owners. Where `locked`, first take the lock on
    /// owner revocations, and hold it until the change is done.
    CountActiveOwners { locked: bool },
    /// Ask the organization's policies whether the restored member is allowed.
    CheckPolicy(Membership),
    /// Write the member.
    Save(Membership),
    /// Send the member an invitation. Whether it could be sent makes no difference.
    SendInvite(Membership),
    /// Record an event of the member.
    Log(EventType, String),
    /// Find an account.
    FindUser(String),
}

/// What came of a piece of work.
#[derive(Debug)]
pub enum UserReply {
    /// The id of the member that was found.
    Found(Option<String>),
    /// How many active owners there are.
    Owners(i64),
    /// Whether the policies allow the member.
    Allowed(bool),
    /// Whether the write succeeded.
    Saved(bool),
    /// The work is done.
    Noted,
    /// The account that was found.
    Account(Option<User>),
}

/// Either more work, or the answer.
#[derive(Debug)]
pub enum UserStep {
    Ask(UserCommand),
    Done(Result<ScimResponse, ScimError>),
}

/// The mathematical counterpart of [`UserCommand`].
pub ghost enum UserCommandView {
    FindByExternalId(Seq<char>),
    CountActiveOwners { locked: bool },
    CheckPolicy(MembershipView),
    Save(MembershipView),
    SendInvite(MembershipView),
    Log(EventType, Seq<char>),
    FindUser(Seq<char>),
}

/// The mathematical counterpart of [`UserReply`].
pub ghost enum UserReplyView {
    Found(Option<Seq<char>>),
    Owners(int),
    Allowed(bool),
    Saved(bool),
    Noted,
    Account(Option<UserView>),
}

/// The mathematical counterpart of [`UserStep`].
pub ghost enum UserStepView {
    Ask(UserCommandView),
    Done(Result<ScimResponseView, ScimErrorView>),
}

impl View for UserCommand {
    type V = UserCommandView;

    open spec fn view(&self) -> UserCommandView {
        match self {
            UserCommand::FindByExternalId(id) => UserCommandView::FindByExternalId(id@),
            UserCommand::CountActiveOwners { locked } => UserCommandView::CountActiveOwners {
                locked: *locked,
            },
            UserCommand::CheckPolicy(member) => UserCommandView::CheckPolicy(member@),
            UserCommand::Save(member) => UserCommandView::Save(member@),
            UserCommand::SendInvite(member) => UserCommandView::SendInvite(member@),
            UserCommand::Log(event, id) => UserCommandView::Log(*event, id@),
            UserCommand::FindUser(id) => UserCommandView::FindUser(id@),
        }
    }
}

impl View for UserReply {
    type V = UserReplyView;

    open spec fn view(&self) -> UserReplyView {
        match self {
            UserReply::Found(id) => UserReplyView::Found(optional(*id)),
            UserReply::Owners(n) => UserReplyView::Owners(*n as int),
            UserReply::Allowed(b) => UserReplyView::Allowed(*b),
            UserReply::Saved(b) => UserReplyView::Saved(*b),
            UserReply::Noted => UserReplyView::Noted,
            UserReply::Account(user) => UserReplyView::Account(
                match user {
                    Some(user) => Some(user@),
                    None => None,
                },
            ),
        }
    }
}

impl View for UserStep {
    type V = UserStepView;

    open spec fn view(&self) -> UserStepView {
        match self {
            UserStep::Ask(command) => UserStepView::Ask(command@),
            UserStep::Done(Ok(response)) => UserStepView::Done(Ok(response@)),
            UserStep::Done(Err(e)) => UserStepView::Done(Err(e@)),
        }
    }
}

/// What a change is waiting for.
#[derive(Clone, Copy, Debug, PartialEq, Eq, Structural)]
pub enum ChangePhase {
    /// The owner count that is looked at before anything is written.
    PrecheckOwners,
    /// Whether the new externalId is taken.
    FindExternalId,
    /// The write of the new externalId.
    SaveExternalId,
    /// Why the write of the new externalId failed.
    RecheckExternalId,
    LogExternalId,
    CheckPolicy,
    SaveRestored,
    InviteRestored,
    LogRestored,
    /// The owner count that decides, taken under the lock.
    CountOwners,
    SaveRevoked,
    LogRevoked,
    FindUser,
    Finished,
}

/// A change of a member that is under way.
#[derive(Debug)]
pub struct UserChange {
    member: Membership,
    external_id: Option<String>,
    active: Option<bool>,
    /// A deletion is answered without a body.
    deleting: bool,
    site: Site,
    phase: ChangePhase,
}

/// The mathematical counterpart of [`UserChange`].
#[verifier::ext_equal]
pub ghost struct UserChangeView {
    pub member: MembershipView,
    pub external_id: Option<Seq<char>>,
    pub active: Option<bool>,
    pub deleting: bool,
    pub site: SiteView,
    pub phase: ChangePhase,
}

impl View for UserChange {
    type V = UserChangeView;

    closed spec fn view(&self) -> UserChangeView {
        UserChangeView {
            member: self.member@,
            external_id: optional(self.external_id),
            active: self.active,
            deleting: self.deleting,
            site: self.site@,
            phase: self.phase,
        }
    }
}

/// The error of an externalId that another member has.
pub open spec fn external_id_taken() -> ScimErrorView {
    ScimErrorView::conflict("uniqueness"@, EXTERNAL_ID_TAKEN@)
}

/// The error of a restore that the organization's policies do not allow.
pub open spec fn blocked_by_policy() -> ScimErrorView {
    ScimErrorView::bad_request("invalidValue"@, BLOCKED_BY_POLICY@)
}

impl UserChangeView {
    /// Asks for a piece of work.
    pub open spec fn ask(self, phase: ChangePhase, command: UserCommandView) -> (Self, UserStepView) {
        (UserChangeView { phase, ..self }, UserStepView::Ask(command))
    }

    /// Ends the change with an error.
    pub open spec fn refuse(self, e: ScimErrorView) -> (Self, UserStepView) {
        (UserChangeView { phase: ChangePhase::Finished, ..self }, UserStepView::Done(Err(e)))
    }

    /// Ends the change with an answer.
    pub open spec fn answer(self, response: ScimResponseView) -> (Self, UserStepView) {
        (UserChangeView { phase: ChangePhase::Finished, ..self }, UserStepView::Done(Ok(response)))
    }

    /// The change of a member that is held differently.
    pub open spec fn holding(self, member: MembershipView) -> Self {
        UserChangeView { member, ..self }
    }

    /// First of all, what the requested activity would be refused for, as far as
    /// looking has no side effects: a request that is going to be refused writes
    /// nothing.
    pub open spec fn begin(self) -> (Self, UserStepView) {
        match self.active {
            Some(true) => if !self.member.active() && self.member.privileged() {
                self.refuse(privileged_grant())
            } else {
                self.change_external_id()
            },
            Some(false) => if self.member.active() && self.member.owner() {
                self.ask(
                    ChangePhase::PrecheckOwners,
                    UserCommandView::CountActiveOwners { locked: false },
                )
            } else {
                self.change_external_id()
            },
            None => self.change_external_id(),
        }
    }

    /// Then the externalId. Repeating the present one, or clearing an absent one, is
    /// no write. Setting one links the member to the directory, so it is refused on
    /// an administrator; clearing it is not.
    pub open spec fn change_external_id(self) -> (Self, UserStepView) {
        match self.external_id {
            None => self.change_activity(),
            Some(id) => if self.member.external_id == Some(id) || (id.len() == 0
                && self.member.external_id is None) {
                self.change_activity()
            } else if id.len() == 0 {
                self.save_external_id()
            } else if id.len() > SCIM_MAX_EXTERNAL_ID_LEN {
                self.refuse(too_long("externalId"@, SCIM_MAX_EXTERNAL_ID_LEN as nat))
            } else if self.member.privileged() {
                self.refuse(privileged_grant())
            } else {
                self.ask(ChangePhase::FindExternalId, UserCommandView::FindByExternalId(id))
            },
        }
    }

    /// Writes the new externalId.
    pub open spec fn save_external_id(self) -> (Self, UserStepView) {
        let member = self.member.correlated(self.external_id);
        self.holding(member).ask(ChangePhase::SaveExternalId, UserCommandView::Save(member))
    }

    /// Then the activity. Restoring an active member, or revoking a revoked one, is
    /// no write.
    pub open spec fn change_activity(self) -> (Self, UserStepView) {
        match self.active {
            Some(true) => if self.member.active() {
                self.conclude()
            } else if self.member.privileged() {
                self.refuse(privileged_grant())
            } else {
                let member = self.member.restored();
                self.holding(member).ask(
                    ChangePhase::CheckPolicy,
                    UserCommandView::CheckPolicy(member),
                )
            },
            Some(false) => if !self.member.active() {
                self.conclude()
            } else if self.member.owner() {
                self.ask(
                    ChangePhase::CountOwners,
                    UserCommandView::CountActiveOwners { locked: true },
                )
            } else {
                self.save_revoked()
            },
            None => self.conclude(),
        }
    }

    /// Writes the revoked member.
    pub open spec fn save_revoked(self) -> (Self, UserStepView) {
        let member = self.member.revoked();
        self.holding(member).ask(ChangePhase::SaveRevoked, UserCommandView::Save(member))
    }

    /// Records that the member was restored.
    pub open spec fn log_restored(self) -> (Self, UserStepView) {
        self.ask(
            ChangePhase::LogRestored,
            UserCommandView::Log(EventType::OrganizationUserRestored, self.member.uuid),
        )
    }

    /// Last, the answer.
    pub open spec fn conclude(self) -> (Self, UserStepView) {
        if self.deleting {
            self.answer(ScimResponseView::no_content())
        } else {
            self.ask(ChangePhase::FindUser, UserCommandView::FindUser(self.member.user_uuid))
        }
    }

    /// What follows a reply. A reply that does not answer what was asked ends the
    /// change with an internal error.
    pub open spec fn resume(self, reply: UserReplyView) -> (Self, UserStepView) {
        match (self.phase, reply) {
            (ChangePhase::PrecheckOwners, UserReplyView::Owners(n)) => if self.member.owner() && n
                <= 1 {
                self.refuse(last_owner())
            } else {
                self.change_external_id()
            },
            (ChangePhase::FindExternalId, UserReplyView::Found(found)) => if found is Some {
                self.refuse(external_id_taken())
            } else {
                self.save_external_id()
            },
            (ChangePhase::SaveExternalId, UserReplyView::Saved(saved)) => if saved {
                self.ask(
                    ChangePhase::LogExternalId,
                    UserCommandView::Log(EventType::OrganizationUserUpdated, self.member.uuid),
                )
            } else {
                self.ask(
                    ChangePhase::RecheckExternalId,
                    UserCommandView::FindByExternalId(
                        match self.external_id {
                            Some(id) => id,
                            None => Seq::empty(),
                        },
                    ),
                )
            },
            (ChangePhase::RecheckExternalId, UserReplyView::Found(found)) => if found matches Some(
                id,
            ) && id != self.member.uuid {
                self.refuse(external_id_taken())
            } else {
                self.refuse(ScimErrorView::internal())
            },
            (ChangePhase::LogExternalId, UserReplyView::Noted) => self.change_activity(),
            (ChangePhase::CheckPolicy, UserReplyView::Allowed(allowed)) => if allowed {
                self.ask(ChangePhase::SaveRestored, UserCommandView::Save(self.member))
            } else {
                self.refuse(blocked_by_policy())
            },
            (ChangePhase::SaveRestored, UserReplyView::Saved(saved)) => if !saved {
                self.refuse(ScimErrorView::internal())
            } else if self.member.status == status_code(MembershipStatus::Invited)
                && self.site.mail_enabled {
                self.ask(ChangePhase::InviteRestored, UserCommandView::SendInvite(self.member))
            } else {
                self.log_restored()
            },
            (ChangePhase::InviteRestored, UserReplyView::Noted) => self.log_restored(),
            (ChangePhase::LogRestored, UserReplyView::Noted) => self.conclude(),
            (ChangePhase::CountOwners, UserReplyView::Owners(n)) => if self.member.owner() && n
                <= 1 {
                self.refuse(last_owner())
            } else {
                self.save_revoked()
            },
            (ChangePhase::SaveRevoked, UserReplyView::Saved(saved)) => if saved {
                self.ask(
                    ChangePhase::LogRevoked,
                    UserCommandView::Log(EventType::OrganizationUserRevoked, self.member.uuid),
                )
            } else {
                self.refuse(ScimErrorView::internal())
            },
            (ChangePhase::LogRevoked, UserReplyView::Noted) => self.conclude(),
            (ChangePhase::FindUser, UserReplyView::Account(found)) => match found {
                Some(user) => self.answer(
                    ScimResponseView::ok(scim_user(self.member, user, self.site)),
                ),
                None => self.refuse(ScimErrorView::internal()),
            },
            _ => self.refuse(ScimErrorView::internal()),
        }
    }
}

/// The change that an update of a member begins with.
pub open spec fn update_of(
    member: MembershipView,
    patch: UserPatchView,
    site: SiteView,
) -> UserChangeView {
    UserChangeView {
        member,
        external_id: patch.external_id,
        active: patch.active,
        deleting: false,
        site,
        phase: ChangePhase::Finished,
    }
}

/// The change that the deletion of a member begins with.
pub open spec fn deletion_of(member: MembershipView, site: SiteView) -> UserChangeView {
    UserChangeView {
        member,
        external_id: None,
        active: Some(false),
        deleting: true,
        site,
        phase: ChangePhase::Finished,
    }
}

impl UserChange {
    fn ask(&mut self, phase: ChangePhase, command: UserCommand) -> (r: UserStep)
        ensures
            (final(self)@, r@) == old(self)@.ask(phase, command@),
    {
        self.phase = phase;
        UserStep::Ask(command)
    }

    fn refuse(&mut self, e: ScimError) -> (r: UserStep)
        ensures
            (final(self)@, r@) == old(self)@.refuse(e@),
    {
        self.phase = ChangePhase::Finished;
        UserStep::Done(Err(e))
    }

    fn answer(&mut self, response: ScimResponse) -> (r: UserStep)
        ensures
            (final(self)@, r@) == old(self)@.answer(response@),
    {
        self.phase = ChangePhase::Finished;
        UserStep::Done(Ok(response))
    }

    fn conclude(&mut self) -> (r: UserStep)
        ensures
            (final(self)@, r@) == old(self)@.conclude(),
    {
        if self.deleting {
            self.answer(ScimResponse::no_content())
        } else {
            let user_uuid = self.member.user_uuid.clone();
            self.ask(ChangePhase::FindUser, UserCommand::FindUser(user_uuid))
        }
    }

    fn save_revoked(&mut self) -> (r: UserStep)
        ensures
            (final(self)@, r@) == old(self)@.save_revoked(),
    {
        self.member.revoke();
        let member = self.member.copy();
        self.ask(ChangePhase::SaveRevoked, UserCommand::Save(member))
    }

    fn change_activity(&mut self) -> (r: UserStep)
        ensures
            (final(self)@, r@) == old(self)@.change_activity(),
    {
        match self.active {
            Some(true) => {
                if membership_active(&self.member) {
                    return self.conclude();
                }
                if let Err(e) = reject_privileged_grant(&self.member) {
                    return self.refuse(e);
                }
                self.member.restore();
                // The policies look at the restored status.
                let member = self.member.copy();
                self.ask(ChangePhase::CheckPolicy, UserCommand::CheckPolicy(member))
            },
            Some(false) => {
                if !membership_active(&self.member) {
                    return self.conclude();
                }
                if is_owner(&self.member) {
                    self.ask(
                        ChangePhase::CountOwners,
                        UserCommand::CountActiveOwners { locked: true },
                    )
                } else {
                    self.save_revoked()
                }
            },
            None => self.conclude(),
        }
    }

    fn save_external_id(&mut self) -> (r: UserStep)
        ensures
            (final(self)@, r@) == old(self)@.save_external_id(),
    {
        let external_id = match &self.external_id {
            Some(id) => Some(id.clone()),
            None => None,
        };
        self.member.set_external_id(external_id);
        let member = self.member.copy();
        self.ask(ChangePhase::SaveExternalId, UserCommand::Save(member))
    }

    fn change_external_id(&mut self) -> (r: UserStep)
        ensures
            (final(self)@, r@) == old(self)@.change_external_id(),
    {
        let id = match &self.external_id {
            Some(id) => id.clone(),
            None => return self.change_activity(),
        };
        let unchanged = match &self.member.external_id {
            Some(present) => text_eq(present.as_str(), id.as_str()),
            None => id.as_str().is_empty(),
        };
        if unchanged {
            return self.change_activity();
        }
        if id.as_str().is_empty() {
            return self.save_external_id();
        }
        if let Err(e) = check_attribute_len("externalId", id.as_str(), SCIM_MAX_EXTERNAL_ID_LEN) {
            return self.refuse(e);
        }
        if let Err(e) = reject_privileged_grant(&self.member) {
            return self.refuse(e);
        }
        self.ask(ChangePhase::FindExternalId, UserCommand::FindByExternalId(id))
    }

    fn begin(&mut self) -> (r: UserStep)
        ensures
            (final(self)@, r@) == old(self)@.begin(),
    {
        match self.active {
            Some(true) => {
                if !membership_active(&self.member) {
                    if let Err(e) = reject_privileged_grant(&self.member) {
                        return self.refuse(e);
                    }
                }
                self.change_external_id()
            },
            Some(false) => {
                if membership_active(&self.member) && is_owner(&self.member) {
                    return self.ask(
                        ChangePhase::PrecheckOwners,
                        UserCommand::CountActiveOwners { locked: false },
                    );
                }
                self.change_external_id()
            },
            None => self.change_external_id(),
        }
    }

    fn log_restored(&mut self) -> (r: UserStep)
        ensures
            (final(self)@, r@) == old(self)@.log_restored(),
    {
        let id = self.member.uuid.clone();
        self.ask(
            ChangePhase::LogRestored,
            UserCommand::Log(EventType::OrganizationUserRestored, id),
        )
    }

    /// Goes on after a piece of work.
    pub fn resume(&mut self, reply: UserReply) -> (r: UserStep)
        ensures
            (final(self)@, r@) == old(self)@.resume(reply@),
    {
        match (self.phase, reply) {
            (ChangePhase::PrecheckOwners, UserReply::Owners(n)) => {
                if let Err(e) = reject_last_owner_revoke(&self.member, n) {
                    return self.refuse(e);
                }
                self.change_external_id()
            },
            (ChangePhase::FindExternalId, UserReply::Found(found)) => {
                if found.is_some() {
                    return self.refuse(ScimError::conflict("uniqueness", EXTERNAL_ID_TAKEN));
                }
                self.save_external_id()
            },
            (ChangePhase::SaveExternalId, UserReply::Saved(saved)) => {
                if saved {
                    let id = self.member.uuid.clone();
                    self.ask(
                        ChangePhase::LogExternalId,
                        UserCommand::Log(EventType::OrganizationUserUpdated, id),
                    )
                } else {
                    // A concurrent request may have taken the externalId since it was
                    // looked up: tell that conflict from a failing database.
                    let id = match &self.external_id {
                        Some(id) => id.clone(),
                        None => String::new(),
                    };
                    self.ask(ChangePhase::RecheckExternalId, UserCommand::FindByExternalId(id))
                }
            },
            (ChangePhase::RecheckExternalId, UserReply::Found(found)) => {
                let taken = match &found {
                    Some(id) => !text_eq(id.as_str(), self.member.uuid.as_str()),
                    None => false,
                };
                if taken {
                    self.refuse(ScimError::conflict("uniqueness", EXTERNAL_ID_TAKEN))
                } else {
                    self.refuse(ScimError::internal())
                }
            },
            (ChangePhase::LogExternalId, UserReply::Noted) => self.change_activity(),
            (ChangePhase::CheckPolicy, UserReply::Allowed(allowed)) => {
                if allowed {
                    let member = self.member.copy();
                    self.ask(ChangePhase::SaveRestored, UserCommand::Save(member))
                } else {
                    self.refuse(ScimError::bad_request("invalidValue", BLOCKED_BY_POLICY))
                }
            },
            (ChangePhase::SaveRestored, UserReply::Saved(saved)) => {
                if !saved {
                    return self.refuse(ScimError::internal());
                }
                // A member restored to Invited has never joined: the invitation may never
                // have been sent, or have expired.
                if self.member.status == MembershipStatus::Invited.code()
                    && self.site.mail_enabled {
                    let member = self.member.copy();
                    self.ask(ChangePhase::InviteRestored, UserCommand::SendInvite(member))
                } else {
                    self.log_restored()
                }
            },
            (ChangePhase::InviteRestored, UserReply::Noted) => self.log_restored(),
            (ChangePhase::LogRestored, UserReply::Noted) => self.conclude(),
            (ChangePhase::CountOwners, UserReply::Owners(n)) => {
                if let Err(e) = reject_last_owner_revoke(&self.member, n) {
                    return self.refuse(e);
                }
                self.save_revoked()
            },
            (ChangePhase::SaveRevoked, UserReply::Saved(saved)) => {
                if saved {
                    let id = self.member.uuid.clone();
                    self.ask(
                        ChangePhase::LogRevoked,
                        UserCommand::Log(EventType::OrganizationUserRevoked, id),
                    )
                } else {
                    self.refuse(ScimError::internal())
                }
            },
            (ChangePhase::LogRevoked, UserReply::Noted) => self.conclude(),
            (ChangePhase::FindUser, UserReply::Account(found)) => {
                match found {
                    Some(user) => {
                        let body = to_scim_user(&self.member, &user, &self.site);
                        self.answer(ScimResponse::ok(body))
                    },
                    None => self.refuse(ScimError::internal()),
                }
            },
            _ => self.refuse(ScimError::internal()),
        }
    }
}

/// Starts an update of a member, as PUT and PATCH ask for it. PUT replaces the
/// attributes SCIM owns: externalId and active.
pub fn update_user(
    member: Option<Membership>,
    request: Result<UserPatch, ScimError>,
    site: Site,
) -> (r: Result<(UserChange, UserStep), ScimError>)
    ensures
        match member {
            None => r matches Err(e) && e@ == ScimErrorView::not_found(),
            Some(member) => match request {
                Err(e) => r matches Err(refused) && refused@ == e@,
                Ok(patch) => r matches Ok((change, step)) && (change@, step@) == update_of(
                    member@,
                    patch@,
                    site@,
                ).begin(),
            },
        },
{
    let Some(member) = member else {
        return Err(ScimError::not_found());
    };
    match request {
        Err(e) => Err(e),
        Ok(patch) => {
            let mut change = UserChange {
                member,
                external_id: patch.external_id,
                active: patch.active,
                deleting: false,
                site,
                phase: ChangePhase::Finished,
            };
            let step = change.begin();
            Ok((change, step))
        },
    }
}

/// Starts the change that a PATCH asks for. A missing member is reported before a body that
/// was refused.
pub fn patch_user(
    member: Option<Membership>,
    data: Result<ScimJson<PatchOp>, ScimError>,
    site: Site,
) -> (r: Result<(UserChange, UserStep), ScimError>)
    ensures
        match member {
            None => r matches Err(e) && e@ == ScimErrorView::not_found(),
            Some(member) => match data {
                Err(e) => r matches Err(refused) && refused@ == e@,
                Ok(body) => match user_patch(body.0@) {
                    Err(e) => r matches Err(refused) && refused@ == e,
                    Ok(patch) => r matches Ok((change, step)) && (change@, step@) == update_of(
                        member@,
                        patch,
                        site@,
                    ).begin(),
                },
            },
        },
{
    let request = match data {
        Err(e) => Err(e),
        Ok(body) => parse_user_patch(&body.0),
    };
    update_user(member, request, site)
}

/// What a PUT changes of a member: the attributes that SCIM owns, as far as they are there.
/// The address is the login identity and the name is global to the person, so neither of
/// them syncs, and no role does.
pub open spec fn replacement(request: ScimUserRequest) -> UserPatchView {
    UserPatchView {
        active: match request.active {
            Some(active) => Some(active.0),
            None => None,
        },
        external_id: optional(request.external_id),
    }
}

/// Starts the change that a PUT asks for. A missing member is reported before a body that was
/// refused.
pub fn put_user(
    member: Option<Membership>,
    data: Result<ScimJson<ScimUserRequest>, ScimError>,
    site: Site,
) -> (r: Result<(UserChange, UserStep), ScimError>)
    ensures
        match member {
            None => r matches Err(e) && e@ == ScimErrorView::not_found(),
            Some(member) => match data {
                Err(e) => r matches Err(refused) && refused@ == e@,
                Ok(body) => r matches Ok((change, step)) && (change@, step@) == update_of(
                    member@,
                    replacement(body.0),
                    site@,
                ).begin(),
            },
        },
{
    let request = match data {
        Err(e) => Err(e),
        Ok(body) => {
            let active = match &body.0.active {
                Some(active) => Some(active.0),
                None => None,
            };
            Ok(UserPatch { active, external_id: body.0.external_id })
        },
    };
    update_user(member, request, site)
}

/// Starts the deletion of a member: a revocation, the same as a PATCH to inactive.
pub fn delete_user(member: Option<Membership>, site: Site) -> (r: Result<
    (UserChange, UserStep),
    ScimError,
>)
    ensures
        match member {
            None => r matches Err(e) && e@ == ScimErrorView::not_found(),
            Some(member) => r matches Ok((change, step)) && (change@, step@) == deletion_of(
                member@,
                site@,
            ).change_activity(),
        },
{
    let Some(member) = member else {
        return Err(ScimError::not_found());
    };
    let mut change = UserChange {
        member,
        external_id: None,
        active: Some(false),
        deleting: true,
        site,
        phase: ChangePhase::Finished,
    };
    let step = change.change_activity();
    Ok((change, step))
}

} // verus!
