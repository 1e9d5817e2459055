//! Provisioning a member: what a User POST does.
//!
//! An account that exists is linked by its address; otherwise a shell account is
//! created, which the person registers into. The membership is written last, and
//! what was written before it is taken back where it fails.
//!
//! Provisioning reaches Invited at most, or Accepted where no mail is sent and the
//! account already has credentials. Confirmed needs an administrator's client.

use vstd::prelude::*;
use vstd::string::*;

use crate::account::{
    shell_account, EventType, Organization, OrganizationView, User, UserView,
};
use crate::error::{ScimError, ScimErrorView};
use crate::membership::{
    status_code, type_code, Membership, MembershipStatus, MembershipType, MembershipView,
};
use crate::models::{request_display_name, request_email, ScimUserRequest};
use crate::scim::{
    check_attribute_len, location_url, resource_location, too_long, ScimJson, ScimResponse,
    ScimResponseView, SCIM_MAX_DISPLAY_NAME_LEN, SCIM_MAX_EMAIL_LEN, SCIM_MAX_EXTERNAL_ID_LEN,
};
use crate::text::{lowered, optional, text_eq, texts};
use crate::users::{external_id_taken, scim_user, to_scim_user, Site, SiteView, EXTERNAL_ID_TAKEN};

verus! {

pub const USER_NAME_TAKEN: &'static str = "A member with this userName already exists";

pub const NO_ADDRESS: &'static str = "userName (or a primary email) must be an email address";

pub const INVALID_ADDRESS: &'static str = "userName is not a valid email address";

pub const SIGNUPS_CLOSED: &'static str = "Creating new accounts is disabled on this server";

pub const DOMAIN_REFUSED: &'static str = "Email domain is not eligible for invitations";

/// What the server's policies say of the address in a request.
#[derive(Clone, Copy, Debug, PartialEq, Eq, Structural)]
pub struct SignupGates {
    /// The address is a valid one.
    pub email_valid: bool,
    /// New accounts may be created.
    pub invitations_allowed: bool,
    /// The address is of a domain that may be invited.
    pub domain_allowed: bool,
}

/// A person to provision.
#[derive(Debug)]
pub struct NewUser {
    pub email: String,
    pub display_name: Option<String>,
    pub external_id: Option<String>,
    pub active: bool,
}

/// The mathematical counterpart of [`NewUser`].
#[verifier::ext_equal]
pub ghost struct NewUserView {
    pub email: Seq<char>,
    pub display_name: Option<Seq<char>>,
    pub external_id: Option<Seq<char>>,
    pub active: bool,
}

impl View for NewUser {
    type V = NewUserView;

    open spec fn view(&self) -> NewUserView {
        NewUserView {
            email: self.email@,
            display_name: optional(self.display_name),
            external_id: optional(self.external_id),
            active: self.active,
        }
    }
}

/// The person that a request describes, or what is wrong with it.
pub open spec fn new_user(
    email: Option<Seq<char>>,
    display_name: Option<Seq<char>>,
    external_id: Option<Seq<char>>,
    active: Option<bool>,
    email_valid: bool,
) -> Result<NewUserView, ScimErrorView> {
    match email {
        None => Err(ScimErrorView::bad_request("invalidValue"@, NO_ADDRESS@)),
        Some(email) => if !email_valid {
            Err(ScimErrorView::bad_request("invalidValue"@, INVALID_ADDRESS@))
        } else if email.len() > SCIM_MAX_EMAIL_LEN {
            Err(too_long("userName"@, SCIM_MAX_EMAIL_LEN as nat))
        } else if display_name matches Some(name) && name.len() > SCIM_MAX_DISPLAY_NAME_LEN {
            Err(too_long("displayName"@, SCIM_MAX_DISPLAY_NAME_LEN as nat))
        } else if external_id matches Some(id) && id.len() > SCIM_MAX_EXTERNAL_ID_LEN {
            Err(too_long("externalId"@, SCIM_MAX_EXTERNAL_ID_LEN as nat))
        } else {
            Ok(
                NewUserView {
                    email,
                    display_name,
                    external_id,
                    // A person can be created already deactivated.
                    active: active != Some(false),
                },
            )
        },
    }
}

/// Checks the shape and the lengths of what a request carries.
pub fn check_new_user(request: &ScimUserRequest, email_valid: bool) -> (r: Result<
    NewUser,
    ScimError,
>)
    ensures
        ({
            let wanted = new_user(
                request_email(*request),
                request_display_name(*request),
                optional(request.external_id),
                match request.active {
                    Some(b) => Some(b.0),
                    None => None,
                },
                email_valid,
            );
            match r {
                Ok(person) => wanted == Ok::<NewUserView, ScimErrorView>(person@),
                Err(e) => wanted == Err::<NewUserView, ScimErrorView>(e@),
            }
        }),
{
    let Some(email) = request.email() else {
        return Err(ScimError::bad_request("invalidValue", NO_ADDRESS));
    };
    if !email_valid {
        return Err(ScimError::bad_request("invalidValue", INVALID_ADDRESS));
    }
    if let Err(e) = check_attribute_len("userName", email.as_str(), SCIM_MAX_EMAIL_LEN) {
        return Err(e);
    }
    let display_name = request.display_name();
    if let Some(name) = &display_name {
        if let Err(e) = check_attribute_len(
            "displayName",
            name.as_str(),
            SCIM_MAX_DISPLAY_NAME_LEN,
        ) {
            return Err(e);
        }
    }
    let external_id = match &request.external_id {
        Some(id) => {
            if let Err(e) = check_attribute_len("externalId", id.as_str(), SCIM_MAX_EXTERNAL_ID_LEN) {
                return Err(e);
            }
            Some(id.clone())
        },
        None => None,
    };
    let active = match request.active {
        Some(b) => b.0,
        None => true,
    };
    Ok(NewUser { email, display_name, external_id, active })
}

/// A piece of work that provisioning asks for.
#[derive(Debug)]
pub enum ProvisionCommand {
    /// Find the member of the organization that has an externalId.
    FindByExternalId(String),
    /// Find the account with an address, in any casing.
    FindAccount(String),
    /// Find an account's membership of the organization.
    FindMembership(String),
    FindOrganization,
    /// Write an invitation for an address.
    SaveInvitation(String),
    /// Take back the invitation for an address.
    TakeInvitation(String),
    /// Insert an account.
    SaveAccount(User),
    /// Delete an account, with every membership and invitation it has.
    DeleteAccount(User),
    /// Find the memberships of an account, in any organization and any state.
    FindAllMemberships(String),
    /// Insert the membership.
    SaveMembership(Membership),
    DeleteMembership(Membership),
    /// Send an invitation. Whether it could be sent makes no difference.
    SendInvite(User, Membership, Organization),
    /// Record an event of the member.
    Log(EventType, String),
}

/// What came of a piece of work.
#[derive(Debug)]
pub enum ProvisionReply {
    /// Whether there is one.
    Exists(bool),
    /// The account that was found.
    Account(Option<User>),
    /// The organization that was found.
    Organization(Option<Organization>),
    /// Whether the write succeeded.
    Saved(bool),
    /// The ids of the memberships that were found.
    Memberships(Vec<String>),
    /// The work is done.
    Noted,
}

/// Either more work, or the answer.
#[derive(Debug)]
pub enum ProvisionStep {
    Ask(ProvisionCommand),
    Done(Result<ScimResponse, ScimError>),
}

/// The mathematical counterpart of [`ProvisionCommand`].
pub ghost enum ProvisionCommandView {
    FindByExternalId(Seq<char>),
    FindAccount(Seq<char>),
    FindMembership(Seq<char>),
    FindOrganization,
    SaveInvitation(Seq<char>),
    TakeInvitation(Seq<char>),
    SaveAccount(UserView),
    DeleteAccount(UserView),
    FindAllMemberships(Seq<char>),
    SaveMembership(MembershipView),
    DeleteMembership(MembershipView),
    SendInvite(UserView, MembershipView, OrganizationView),
    Log(EventType, Seq<char>),
}

/// The mathematical counterpart of [`ProvisionReply`].
pub ghost enum ProvisionReplyView {
    Exists(bool),
    Account(Option<UserView>),
    Organization(Option<OrganizationView>),
    Saved(bool),
    Memberships(Seq<Seq<char>>),
    Noted,
}

/// The mathematical counterpart of [`ProvisionStep`].
pub ghost enum ProvisionStepView {
    Ask(ProvisionCommandView),
    Done(Result<ScimResponseView, ScimErrorView>),
}

impl View for ProvisionCommand {
    type V = ProvisionCommandView;

    open spec fn view(&self) -> ProvisionCommandView {
        match self {
            ProvisionCommand::FindByExternalId(id) => ProvisionCommandView::FindByExternalId(id@),
            ProvisionCommand::FindAccount(email) => ProvisionCommandView::FindAccount(email@),
            ProvisionCommand::FindMembership(id) => ProvisionCommandView::FindMembership(id@),
            ProvisionCommand::FindOrganization => ProvisionCommandView::FindOrganization,
            ProvisionCommand::SaveInvitation(email) => ProvisionCommandView::SaveInvitation(email@),
            ProvisionCommand::TakeInvitation(email) => ProvisionCommandView::TakeInvitation(email@),
            ProvisionCommand::SaveAccount(user) => ProvisionCommandView::SaveAccount(user@),
            ProvisionCommand::DeleteAccount(user) => ProvisionCommandView::DeleteAccount(user@),
            ProvisionCommand::FindAllMemberships(id) => ProvisionCommandView::FindAllMemberships(
                id@,
            ),
            ProvisionCommand::SaveMembership(member) => ProvisionCommandView::SaveMembership(
                member@,
            ),
            ProvisionCommand::DeleteMembership(member) => ProvisionCommandView::DeleteMembership(
                member@,
            ),
            ProvisionCommand::SendInvite(user, member, org) => ProvisionCommandView::SendInvite(
                user@,
                member@,
                org@,
            ),
            ProvisionCommand::Log(event, id) => ProvisionCommandView::Log(*event, id@),
        }
    }
}

impl View for ProvisionReply {
    type V = ProvisionReplyView;

    open spec fn view(&self) -> ProvisionReplyView {
        match self {
            ProvisionReply::Exists(b) => ProvisionReplyView::Exists(*b),
            ProvisionReply::Account(user) => ProvisionReplyView::Account(
                match user {
                    Some(user) => Some(user@),
                    None => None,
                },
            ),
            ProvisionReply::Organization(org) => ProvisionReplyView::Organization(
                match org {
                    Some(org) => Some(org@),
                    None => None,
                },
            ),
            ProvisionReply::Saved(b) => ProvisionReplyView::Saved(*b),
            ProvisionReply::Memberships(ids) => ProvisionReplyView::Memberships(texts(ids@)),
            ProvisionReply::Noted => ProvisionReplyView::Noted,
        }
    }
}

impl View for ProvisionStep {
    type V = ProvisionStepView;

    open spec fn view(&self) -> ProvisionStepView {
        match self {
            ProvisionStep::Ask(command) => ProvisionStepView::Ask(command@),
            ProvisionStep::Done(Ok(response)) => ProvisionStepView::Done(Ok(response@)),
            ProvisionStep::Done(Err(e)) => ProvisionStepView::Done(Err(e@)),
        }
    }
}

/// What provisioning is waiting for.
#[derive(Clone, Copy, Debug, PartialEq, Eq, Structural)]
pub enum ProvisionPhase {
    CheckExternalId,
    FindAccount,
    CheckMembership,
    FindOrganization,
    /// The invitation of an account that exists but never registered.
    InviteExisting,
    SaveAccount,
    /// The account of a concurrent request that was faster.
    FindRaced,
    /// The invitation of the account that was just created.
    InviteNew,
    /// Whether the account that was just created is still this request's alone.
    CheckOrphan,
    DropOrphan,
    SaveMembership,
    /// Why the membership could not be written.
    RecheckMembership,
    /// Whether the account is this request's to take back.
    Rollback,
    RollbackAccount,
    RollbackMembership,
    RollbackInvitation,
    SendInvite,
    LogInvited,
    LogRevoked,
    Finished,
}

/// A provisioning that is under way.
#[derive(Debug)]
pub struct Provisioning {
    person: NewUser,
    gates: SignupGates,
    site: Site,
    /// The ids of the rows that this request may create.
    user_uuid: String,
    member_uuid: String,
    user: Option<User>,
    org: Option<Organization>,
    member: Option<Membership>,
    /// This request created the account.
    user_created: bool,
    /// This request wrote an invitation for an account that already existed. Left
    /// behind, it would open registration for that address.
    invitation_created: bool,
    phase: ProvisionPhase,
}

/// The mathematical counterpart of [`Provisioning`].
#[verifier::ext_equal]
pub ghost struct ProvisioningView {
    pub person: NewUserView,
    pub gates: SignupGates,
    pub site: SiteView,
    pub user_uuid: Seq<char>,
    pub member_uuid: Seq<char>,
    pub user: Option<UserView>,
    pub org: Option<OrganizationView>,
    pub member: Option<MembershipView>,
    pub user_created: bool,
    pub invitation_created: bool,
    pub phase: ProvisionPhase,
}

impl View for Provisioning {
    type V = ProvisioningView;

    closed spec fn view(&self) -> ProvisioningView {
        ProvisioningView {
            person: self.person@,
            gates: self.gates,
            site: self.site@,
            user_uuid: self.user_uuid@,
            member_uuid: self.member_uuid@,
            user: match self.user {
                Some(user) => Some(user@),
                None => None,
            },
            org: match self.org {
                Some(org) => Some(org@),
                None => None,
            },
            member: match self.member {
                Some(member) => Some(member@),
                None => None,
            },
            user_created: self.user_created,
            invitation_created: self.invitation_created,
            phase: self.phase,
        }
    }
}

/// The error of a person who is already a member.
pub open spec fn user_name_taken() -> ScimErrorView {
    ScimErrorView::conflict("uniqueness"@, USER_NAME_TAKEN@)
}

/// The status that a new member starts with: Accepted needs an account that can log
/// in, and no mail to wait for.
pub open spec fn first_status(mail_enabled: bool, registered: bool) -> MembershipStatus {
    if mail_enabled || !registered {
        MembershipStatus::Invited
    } else {
        MembershipStatus::Accepted
    }
}

/// The membership that provisioning writes.
pub open spec fn new_membership(
    uuid: Seq<char>,
    user: UserView,
    org: OrganizationView,
    person: NewUserView,
    site: SiteView,
) -> MembershipView {
    let member = MembershipView {
        uuid,
        user_uuid: user.uuid,
        org_uuid: site.org_uuid,
        invited_by_email: Some(org.billing_email),
        access_all: false,
        akey: Seq::empty(),
        status: status_code(first_status(site.mail_enabled, user.registered())),
        atype: type_code(MembershipType::User),
        external_id: None,
    }.correlated(person.external_id);
    if person.active {
        member
    } else {
        member.revoked()
    }
}

/// Whether an account is this request's to delete: it created it, and no membership
/// but the one being taken back has attached to it since. Deleting an account takes
/// every membership with it, other organizations' included.
pub open spec fn account_ours(
    user_created: bool,
    member_uuid: Seq<char>,
    memberships: Seq<Seq<char>>,
) -> bool {
    user_created && forall|i: int|
        0 <= i < memberships.len() ==> #[trigger] memberships[i] == member_uuid
}

/// Whether an account is this request's to delete.
pub fn account_is_ours(user_created: bool, member_uuid: &str, memberships: &Vec<String>) -> (r: bool)
    ensures
        r == account_ours(user_created, member_uuid@, texts(memberships@)),
{
    let ghost all = texts(memberships@);
    let mut i: usize = 0;
    while i < memberships.len()
        invariant
            i <= memberships.len(),
            all == texts(memberships@),
            forall|j: int| 0 <= j < i ==> #[trigger] all[j] == member_uuid@,
        decreases memberships.len() - i,
    {
        if !text_eq(memberships[i].as_str(), member_uuid) {
            assert(all[i as int] != member_uuid@);
            return false;
        }
        i += 1;
    }
    user_created
}

impl ProvisioningView {
    /// Asks for a piece of work.
    pub open spec fn ask(self, phase: ProvisionPhase, command: ProvisionCommandView) -> (
        Self,
        ProvisionStepView,
    ) {
        (ProvisioningView { phase, ..self }, ProvisionStepView::Ask(command))
    }

    /// Ends provisioning with an error.
    pub open spec fn refuse(self, e: ScimErrorView) -> (Self, ProvisionStepView) {
        (
            ProvisioningView { phase: ProvisionPhase::Finished, ..self },
            ProvisionStepView::Done(Err(e)),
        )
    }

    /// Ends provisioning for a reason that is not the client's.
    pub open spec fn fail(self) -> (Self, ProvisionStepView) {
        self.refuse(ScimErrorView::internal())
    }

    /// First, the externalId and the account must be free within the organization.
    pub open spec fn begin(self) -> (Self, ProvisionStepView) {
        match self.person.external_id {
            Some(id) => self.ask(
                ProvisionPhase::CheckExternalId,
                ProvisionCommandView::FindByExternalId(id),
            ),
            None => self.find_account(),
        }
    }

    pub open spec fn find_account(self) -> (Self, ProvisionStepView) {
        self.ask(
            ProvisionPhase::FindAccount,
            ProvisionCommandView::FindAccount(self.person.email),
        )
    }

    pub open spec fn find_organization(self) -> (Self, ProvisionStepView) {
        self.ask(ProvisionPhase::FindOrganization, ProvisionCommandView::FindOrganization)
    }

    /// Then there must be an account. One that exists is linked; a new one has to pass
    /// the server's signup gates. Where no mail is sent, an account without
    /// credentials needs an invitation to register with.
    pub open spec fn secure_account(self) -> (Self, ProvisionStepView) {
        match self.user {
            Some(user) => if !self.site.mail_enabled && !user.registered() {
                self.ask(
                    ProvisionPhase::InviteExisting,
                    ProvisionCommandView::SaveInvitation(user.email),
                )
            } else {
                self.create_member()
            },
            None => if !self.gates.invitations_allowed {
                self.refuse(ScimErrorView::bad_request("invalidValue"@, SIGNUPS_CLOSED@))
            } else if !self.gates.domain_allowed {
                self.refuse(ScimErrorView::bad_request("invalidValue"@, DOMAIN_REFUSED@))
            } else {
                let user = shell_account(
                    self.user_uuid,
                    lowered(self.person.email),
                    self.person.display_name,
                );
                ProvisioningView { user: Some(user), ..self }.ask(
                    ProvisionPhase::SaveAccount,
                    ProvisionCommandView::SaveAccount(user),
                )
            },
        }
    }

    /// Last, the membership.
    pub open spec fn create_member(self) -> (Self, ProvisionStepView) {
        match (self.user, self.org) {
            (Some(user), Some(org)) => {
                let member = new_membership(self.member_uuid, user, org, self.person, self.site);
                ProvisioningView { member: Some(member), ..self }.ask(
                    ProvisionPhase::SaveMembership,
                    ProvisionCommandView::SaveMembership(member),
                )
            },
            _ => self.fail(),
        }
    }

    /// Looks for every membership of the account.
    pub open spec fn find_all_memberships(self, phase: ProvisionPhase) -> (Self, ProvisionStepView) {
        match self.user {
            Some(user) => self.ask(phase, ProvisionCommandView::FindAllMemberships(user.uuid)),
            None => self.fail(),
        }
    }

    /// Records that the member was invited.
    pub open spec fn log_invited(self) -> (Self, ProvisionStepView) {
        self.ask(
            ProvisionPhase::LogInvited,
            ProvisionCommandView::Log(EventType::OrganizationUserInvited, self.member_uuid),
        )
    }

    /// The answer.
    pub open spec fn respond(self) -> (Self, ProvisionStepView) {
        match (self.user, self.member) {
            (Some(user), Some(member)) => (
                ProvisioningView { phase: ProvisionPhase::Finished, ..self },
                ProvisionStepView::Done(
                    Ok(
                        ScimResponseView::created(
                            location_url(
                                self.site.domain,
                                self.site.org_uuid,
                                "Users"@,
                                member.uuid,
                            ),
                            scim_user(member, user, self.site),
                        ),
                    ),
                ),
            ),
            _ => self.fail(),
        }
    }

    /// What the database found of the account takes provisioning on.
    pub open spec fn resume_search(self, reply: ProvisionReplyView) -> (Self, ProvisionStepView) {
        match (self.phase, reply) {
            (ProvisionPhase::CheckExternalId, ProvisionReplyView::Exists(found)) => if found {
                self.refuse(external_id_taken())
            } else {
                self.find_account()
            },
            (ProvisionPhase::FindAccount, ProvisionReplyView::Account(found)) => match found {
                Some(user) => ProvisioningView { user: Some(user), ..self }.ask(
                    ProvisionPhase::CheckMembership,
                    ProvisionCommandView::FindMembership(user.uuid),
                ),
                None => self.find_organization(),
            },
            (ProvisionPhase::CheckMembership, ProvisionReplyView::Exists(found)) => if found {
                self.refuse(user_name_taken())
            } else {
                self.find_organization()
            },
            (ProvisionPhase::FindOrganization, ProvisionReplyView::Organization(found)) => match found {
                Some(org) => ProvisioningView { org: Some(org), ..self }.secure_account(),
                None => self.fail(),
            },
            _ => self.fail(),
        }
    }

    /// What came of writing the account takes provisioning on. A concurrent request
    /// may have created the account in the meantime: its account is adopted.
    pub open spec fn resume_account(self, reply: ProvisionReplyView) -> (Self, ProvisionStepView) {
        match (self.phase, reply) {
            (ProvisionPhase::InviteExisting, ProvisionReplyView::Saved(saved)) => if saved {
                ProvisioningView { invitation_created: true, ..self }.create_member()
            } else {
                self.fail()
            },
            (ProvisionPhase::SaveAccount, ProvisionReplyView::Saved(saved)) => if !saved {
                self.ask(
                    ProvisionPhase::FindRaced,
                    ProvisionCommandView::FindAccount(self.person.email),
                )
            } else if self.site.mail_enabled {
                ProvisioningView { user_created: true, ..self }.create_member()
            } else {
                match self.user {
                    Some(user) => self.ask(
                        ProvisionPhase::InviteNew,
                        ProvisionCommandView::SaveInvitation(user.email),
                    ),
                    None => self.fail(),
                }
            },
            (ProvisionPhase::FindRaced, ProvisionReplyView::Account(found)) => match found {
                Some(user) => ProvisioningView { user: Some(user), ..self }.create_member(),
                None => self.fail(),
            },
            (ProvisionPhase::InviteNew, ProvisionReplyView::Saved(saved)) => if saved {
                ProvisioningView { user_created: true, ..self }.create_member()
            } else {
                self.find_all_memberships(ProvisionPhase::CheckOrphan)
            },
            (ProvisionPhase::CheckOrphan, ProvisionReplyView::Memberships(ids)) => match self.user {
                Some(user) => if ids.len() == 0 {
                    self.ask(
                        ProvisionPhase::DropOrphan,
                        ProvisionCommandView::DeleteAccount(user),
                    )
                } else {
                    self.fail()
                },
                None => self.fail(),
            },
            _ => self.fail(),
        }
    }

    /// What came of writing the membership takes provisioning on. A concurrent request
    /// may have written it first: that row is valid and stays. Otherwise what was
    /// written is taken back.
    pub open spec fn resume_membership(self, reply: ProvisionReplyView) -> (
        Self,
        ProvisionStepView,
    ) {
        match (self.phase, reply) {
            (ProvisionPhase::SaveMembership, ProvisionReplyView::Saved(saved)) => match (
                self.user,
                self.org,
                self.member,
            ) {
                (Some(user), Some(org), Some(member)) => if !saved {
                    self.ask(
                        ProvisionPhase::RecheckMembership,
                        ProvisionCommandView::FindMembership(user.uuid),
                    )
                } else if self.person.active && self.site.mail_enabled {
                    self.ask(
                        ProvisionPhase::SendInvite,
                        ProvisionCommandView::SendInvite(user, member, org),
                    )
                } else {
                    self.log_invited()
                },
                _ => self.fail(),
            },
            (ProvisionPhase::RecheckMembership, ProvisionReplyView::Exists(found)) => if found {
                self.refuse(user_name_taken())
            } else {
                self.find_all_memberships(ProvisionPhase::Rollback)
            },
            (ProvisionPhase::Rollback, ProvisionReplyView::Memberships(ids)) => match (
                self.user,
                self.member,
            ) {
                (Some(user), Some(member)) => if account_ours(self.user_created, member.uuid, ids) {
                    self.ask(
                        ProvisionPhase::RollbackAccount,
                        ProvisionCommandView::DeleteAccount(user),
                    )
                } else {
                    self.ask(
                        ProvisionPhase::RollbackMembership,
                        ProvisionCommandView::DeleteMembership(member),
                    )
                },
                _ => self.fail(),
            },
            (ProvisionPhase::RollbackMembership, ProvisionReplyView::Saved(_)) => match self.user {
                Some(user) => if self.invitation_created {
                    self.ask(
                        ProvisionPhase::RollbackInvitation,
                        ProvisionCommandView::TakeInvitation(user.email),
                    )
                } else {
                    self.fail()
                },
                None => self.fail(),
            },
            (ProvisionPhase::SendInvite, ProvisionReplyView::Noted) => self.log_invited(),
            (ProvisionPhase::LogInvited, ProvisionReplyView::Noted) => if self.person.active {
                self.respond()
            } else {
                self.ask(
                    ProvisionPhase::LogRevoked,
                    ProvisionCommandView::Log(
                        EventType::OrganizationUserRevoked,
                        self.member_uuid,
                    ),
                )
            },
            (ProvisionPhase::LogRevoked, ProvisionReplyView::Noted) => self.respond(),
            _ => self.fail(),
        }
    }

    /// What follows a reply. Once everything has been taken back, and where a reply
    /// does not answer what was asked, provisioning ends with an internal error.
    pub open spec fn resume(self, reply: ProvisionReplyView) -> (Self, ProvisionStepView) {
        match self.phase {
            ProvisionPhase::CheckExternalId
            | ProvisionPhase::FindAccount
            | ProvisionPhase::CheckMembership
            | ProvisionPhase::FindOrganization => self.resume_search(reply),
            ProvisionPhase::InviteExisting
            | ProvisionPhase::SaveAccount
            | ProvisionPhase::FindRaced
            | ProvisionPhase::InviteNew
            | ProvisionPhase::CheckOrphan => self.resume_account(reply),
            ProvisionPhase::SaveMembership
            | ProvisionPhase::RecheckMembership
            | ProvisionPhase::Rollback
            | ProvisionPhase::RollbackMembership
            | ProvisionPhase::SendInvite
            | ProvisionPhase::LogInvited
            | ProvisionPhase::LogRevoked => self.resume_membership(reply),
            _ => self.fail(),
        }
    }
}

/// The provisioning that a person begins with.
pub open spec fn provisioning_of(
    person: NewUserView,
    gates: SignupGates,
    site: SiteView,
    user_uuid: Seq<char>,
    member_uuid: Seq<char>,
) -> ProvisioningView {
    ProvisioningView {
        person,
        gates,
        site,
        user_uuid,
        member_uuid,
        user: None,
        org: None,
        member: None,
        user_created: false,
        invitation_created: false,
        phase: ProvisionPhase::Finished,
    }
}

impl Provisioning {
    fn ask(&mut self, phase: ProvisionPhase, command: ProvisionCommand) -> (r: ProvisionStep)
        ensures
            (final(self)@, r@) == old(self)@.ask(phase, command@),
    {
        self.phase = phase;
        ProvisionStep::Ask(command)
    }

    fn refuse(&mut self, e: ScimError) -> (r: ProvisionStep)
        ensures
            (final(self)@, r@) == old(self)@.refuse(e@),
    {
        self.phase = ProvisionPhase::Finished;
        ProvisionStep::Done(Err(e))
    }

    fn fail(&mut self) -> (r: ProvisionStep)
        ensures
            (final(self)@, r@) == old(self)@.fail(),
    {
        self.refuse(ScimError::internal())
    }

    fn find_account(&mut self) -> (r: ProvisionStep)
        ensures
            (final(self)@, r@) == old(self)@.find_account(),
    {
        let email = self.person.email.clone();
        self.ask(ProvisionPhase::FindAccount, ProvisionCommand::FindAccount(email))
    }

    fn begin(&mut self) -> (r: ProvisionStep)
        ensures
            (final(self)@, r@) == old(self)@.begin(),
    {
        let id = match &self.person.external_id {
            Some(id) => id.clone(),
            None => return self.find_account(),
        };
        self.ask(ProvisionPhase::CheckExternalId, ProvisionCommand::FindByExternalId(id))
    }

    fn find_organization(&mut self) -> (r: ProvisionStep)
        ensures
            (final(self)@, r@) == old(self)@.find_organization(),
    {
        self.ask(ProvisionPhase::FindOrganization, ProvisionCommand::FindOrganization)
    }

    fn create_member(&mut self) -> (r: ProvisionStep)
        ensures
            (final(self)@, r@) == old(self)@.create_member(),
    {
        let mut member = match (&self.user, &self.org) {
            (Some(user), Some(org)) => {
                let mut member = Membership::new(
                    self.member_uuid.clone(),
                    user.uuid.clone(),
                    self.site.org_uuid.clone(),
                    Some(org.billing_email.clone()),
                );
                member.status = if self.site.mail_enabled || !user.is_registered() {
                    MembershipStatus::Invited.code()
                } else {
                    MembershipStatus::Accepted.code()
                };
                member
            },
            _ => return self.fail(),
        };
        let external_id = match &self.person.external_id {
            Some(id) => Some(id.clone()),
            None => None,
        };
        member.set_external_id(external_id);
        member.access_all = false;
        member.atype = MembershipType::User.code();
        if !self.person.active {
            member.revoke();
        }
        let kept = member.copy();
        self.member = Some(kept);
        self.ask(ProvisionPhase::SaveMembership, ProvisionCommand::SaveMembership(member))
    }

    fn secure_account(&mut self) -> (r: ProvisionStep)
        ensures
            (final(self)@, r@) == old(self)@.secure_account(),
    {
        if let Some(user) = &self.user {
            if !self.site.mail_enabled && !user.is_registered() {
                let email = user.email.clone();
                return self.ask(
                    ProvisionPhase::InviteExisting,
                    ProvisionCommand::SaveInvitation(email),
                );
            }
            return self.create_member();
        }
        if !self.gates.invitations_allowed {
            return self.refuse(ScimError::bad_request("invalidValue", SIGNUPS_CLOSED));
        }
        if !self.gates.domain_allowed {
            return self.refuse(ScimError::bad_request("invalidValue", DOMAIN_REFUSED));
        }
        let name = match &self.person.display_name {
            Some(name) => Some(name.clone()),
            None => None,
        };
        let user = User::new(self.user_uuid.clone(), self.person.email.as_str(), name);
        let kept = user.copy();
        self.user = Some(kept);
        self.ask(ProvisionPhase::SaveAccount, ProvisionCommand::SaveAccount(user))
    }

    fn find_all_memberships(&mut self, phase: ProvisionPhase) -> (r: ProvisionStep)
        ensures
            (final(self)@, r@) == old(self)@.find_all_memberships(phase),
    {
        let user_uuid = match &self.user {
            Some(user) => user.uuid.clone(),
            None => return self.fail(),
        };
        self.ask(phase, ProvisionCommand::FindAllMemberships(user_uuid))
    }

    fn log_invited(&mut self) -> (r: ProvisionStep)
        ensures
            (final(self)@, r@) == old(self)@.log_invited(),
    {
        let id = self.member_uuid.clone();
        self.ask(
            ProvisionPhase::LogInvited,
            ProvisionCommand::Log(EventType::OrganizationUserInvited, id),
        )
    }

    fn respond(&mut self) -> (r: ProvisionStep)
        ensures
            (final(self)@, r@) == old(self)@.respond(),
    {
        let response = match (&self.user, &self.member) {
            (Some(user), Some(member)) => {
                let location = resource_location(
                    self.site.domain.as_str(),
                    self.site.org_uuid.as_str(),
                    "Users",
                    member.uuid.as_str(),
                );
                ScimResponse::created(location, to_scim_user(member, user, &self.site))
            },
            _ => return self.fail(),
        };
        self.phase = ProvisionPhase::Finished;
        ProvisionStep::Done(Ok(response))
    }

    fn resume_search(&mut self, reply: ProvisionReply) -> (r: ProvisionStep)
        ensures
            (final(self)@, r@) == old(self)@.resume_search(reply@),
    {
        match (self.phase, reply) {
            (ProvisionPhase::CheckExternalId, ProvisionReply::Exists(found)) => {
                if found {
                    return self.refuse(ScimError::conflict("uniqueness", EXTERNAL_ID_TAKEN));
                }
                self.find_account()
            },
            (ProvisionPhase::FindAccount, ProvisionReply::Account(found)) => match found {
                Some(user) => {
                    let id = user.uuid.clone();
                    self.user = Some(user);
                    self.ask(ProvisionPhase::CheckMembership, ProvisionCommand::FindMembership(id))
                },
                None => self.find_organization(),
            },
            (ProvisionPhase::CheckMembership, ProvisionReply::Exists(found)) => {
                if found {
                    return self.refuse(ScimError::conflict("uniqueness", USER_NAME_TAKEN));
                }
                self.find_organization()
            },
            (ProvisionPhase::FindOrganization, ProvisionReply::Organization(found)) => match found {
                Some(org) => {
                    self.org = Some(org);
                    self.secure_account()
                },
                None => self.fail(),
            },
            _ => self.fail(),
        }
    }

    fn resume_account(&mut self, reply: ProvisionReply) -> (r: ProvisionStep)
        ensures
            (final(self)@, r@) == old(self)@.resume_account(reply@),
    {
        match (self.phase, reply) {
            (ProvisionPhase::InviteExisting, ProvisionReply::Saved(saved)) => {
                if !saved {
                    return self.fail();
                }
                self.invitation_created = true;
                self.create_member()
            },
            (ProvisionPhase::SaveAccount, ProvisionReply::Saved(saved)) => {
                if !saved {
                    let email = self.person.email.clone();
                    return self.ask(
                        ProvisionPhase::FindRaced,
                        ProvisionCommand::FindAccount(email),
                    );
                }
                if self.site.mail_enabled {
                    self.user_created = true;
                    return self.create_member();
                }
                let email = match &self.user {
                    Some(user) => user.email.clone(),
                    None => return self.fail(),
                };
                self.ask(ProvisionPhase::InviteNew, ProvisionCommand::SaveInvitation(email))
            },
            (ProvisionPhase::FindRaced, ProvisionReply::Account(found)) => match found {
                Some(user) => {
                    self.user = Some(user);
                    self.create_member()
                },
                None => self.fail(),
            },
            (ProvisionPhase::InviteNew, ProvisionReply::Saved(saved)) => {
                if !saved {
                    // A concurrent request may have attached a membership to the account
                    // since it was created: look before deleting it.
                    return self.find_all_memberships(ProvisionPhase::CheckOrphan);
                }
                self.user_created = true;
                self.create_member()
            },
            (ProvisionPhase::CheckOrphan, ProvisionReply::Memberships(ids)) => {
                if ids.len() > 0 {
                    return self.fail();
                }
                let user = match &self.user {
                    Some(user) => user.copy(),
                    None => return self.fail(),
                };
                self.ask(ProvisionPhase::DropOrphan, ProvisionCommand::DeleteAccount(user))
            },
            _ => self.fail(),
        }
    }

    fn resume_membership(&mut self, reply: ProvisionReply) -> (r: ProvisionStep)
        ensures
            (final(self)@, r@) == old(self)@.resume_membership(reply@),
    {
        match (self.phase, reply) {
            (ProvisionPhase::SaveMembership, ProvisionReply::Saved(saved)) => {
                let (user, org, member) = match (&self.user, &self.org, &self.member) {
                    (Some(user), Some(org), Some(member)) => (
                        user.copy(),
                        org.copy(),
                        member.copy(),
                    ),
                    _ => return self.fail(),
                };
                if !saved {
                    self.ask(
                        ProvisionPhase::RecheckMembership,
                        ProvisionCommand::FindMembership(user.uuid),
                    )
                } else if self.person.active && self.site.mail_enabled {
                    self.ask(
                        ProvisionPhase::SendInvite,
                        ProvisionCommand::SendInvite(user, member, org),
                    )
                } else {
                    self.log_invited()
                }
            },
            (ProvisionPhase::RecheckMembership, ProvisionReply::Exists(found)) => {
                if found {
                    return self.refuse(ScimError::conflict("uniqueness", USER_NAME_TAKEN));
                }
                self.find_all_memberships(ProvisionPhase::Rollback)
            },
            (ProvisionPhase::Rollback, ProvisionReply::Memberships(ids)) => {
                let (user, member) = match (&self.user, &self.member) {
                    (Some(user), Some(member)) => (user.copy(), member.copy()),
                    _ => return self.fail(),
                };
                if account_is_ours(self.user_created, member.uuid.as_str(), &ids) {
                    self.ask(
                        ProvisionPhase::RollbackAccount,
                        ProvisionCommand::DeleteAccount(user),
                    )
                } else {
                    self.ask(
                        ProvisionPhase::RollbackMembership,
                        ProvisionCommand::DeleteMembership(member),
                    )
                }
            },
            (ProvisionPhase::RollbackMembership, ProvisionReply::Saved(_)) => {
                let email = match &self.user {
                    Some(user) => user.email.clone(),
                    None => return self.fail(),
                };
                if self.invitation_created {
                    self.ask(
                        ProvisionPhase::RollbackInvitation,
                        ProvisionCommand::TakeInvitation(email),
                    )
                } else {
                    self.fail()
                }
            },
            (ProvisionPhase::SendInvite, ProvisionReply::Noted) => self.log_invited(),
            (ProvisionPhase::LogInvited, ProvisionReply::Noted) => {
                if self.person.active {
                    return self.respond();
                }
                let id = self.member_uuid.clone();
                self.ask(
                    ProvisionPhase::LogRevoked,
                    ProvisionCommand::Log(EventType::OrganizationUserRevoked, id),
                )
            },
            (ProvisionPhase::LogRevoked, ProvisionReply::Noted) => self.respond(),
            _ => self.fail(),
        }
    }

    /// Goes on after a piece of work.
    pub fn resume(&mut self, reply: ProvisionReply) -> (r: ProvisionStep)
        ensures
            (final(self)@, r@) == old(self)@.resume(reply@),
    {
        match self.phase {
            ProvisionPhase::CheckExternalId
            | ProvisionPhase::FindAccount
            | ProvisionPhase::CheckMembership
            | ProvisionPhase::FindOrganization => self.resume_search(reply),
            ProvisionPhase::InviteExisting
            | ProvisionPhase::SaveAccount
            | ProvisionPhase::FindRaced
            | ProvisionPhase::InviteNew
            | ProvisionPhase::CheckOrphan => self.resume_account(reply),
            ProvisionPhase::SaveMembership
            | ProvisionPhase::RecheckMembership
            | ProvisionPhase::Rollback
            | ProvisionPhase::RollbackMembership
            | ProvisionPhase::SendInvite
            | ProvisionPhase::LogInvited
            | ProvisionPhase::LogRevoked => self.resume_membership(reply),
            _ => self.fail(),
        }
    }
}

/// Starts provisioning a person. The two ids are fresh, for the rows that may be
/// created.
pub fn post_user(
    data: Result<ScimJson<ScimUserRequest>, ScimError>,
    gates: SignupGates,
    site: Site,
    user_uuid: String,
    member_uuid: String,
) -> (r: Result<(Provisioning, ProvisionStep), ScimError>)
    ensures
        match data {
            Err(e) => r matches Err(refused) && refused@ == e@,
            Ok(body) => {
                let wanted = new_user(
                    request_email(body.0),
                    request_display_name(body.0),
                    optional(body.0.external_id),
                    match body.0.active {
                        Some(b) => Some(b.0),
                        None => None,
                    },
                    gates.email_valid,
                );
                match r {
                    Err(e) => wanted == Err::<NewUserView, ScimErrorView>(e@),
                    Ok((provisioning, step)) => wanted matches Ok(person) && (
                        provisioning@,
                        step@,
                    ) == provisioning_of(
                        person,
                        gates,
                        site@,
                        user_uuid@,
                        member_uuid@,
                    ).begin(),
                }
            },
        },
{
    let request = match data {
        Err(e) => return Err(e),
        Ok(body) => body.0,
    };
    match check_new_user(&request, gates.email_valid) {
        Err(e) => Err(e),
        Ok(person) => {
            let mut provisioning = Provisioning {
                person,
                gates,
                site,
                user_uuid,
                member_uuid,
                user: None,
                org: None,
                member: None,
                user_created: false,
                invitation_created: false,
                phase: ProvisionPhase::Finished,
            };
            let step = provisioning.begin();
            Ok((provisioning, step))
        },
    }
}

} // verus!
