use vaultwarden_scim::account::{EventType, Organization, User};
use vaultwarden_scim::error::ScimError;
use vaultwarden_scim::json::Json;
use vaultwarden_scim::membership::Membership;
use vaultwarden_scim::models::{ScimBool, ScimEmail, ScimName, ScimUserRequest};
use vaultwarden_scim::patch::{PatchOp, PatchOperation, UserPatch, PATCH_OP_URN};
use vaultwarden_scim::provisioning::{
    account_is_ours, post_user, ProvisionCommand, ProvisionReply, ProvisionStep, SignupGates,
};
use vaultwarden_scim::scim::{BodyOutcome, ScimJson, ScimResponse};
use vaultwarden_scim::users::{
    delete_user, get_user, patch_user, put_user, update_user, Site, UserChange, UserCommand, UserReply, UserStep,
};

type Answer = Result<ScimResponse, ScimError>;

/// A database of one server, with the failures that a test asks for.
#[derive(Default)]
struct Db {
    users: Vec<User>,
    members: Vec<Membership>,
    invitations: Vec<String>,
    orgs: Vec<String>,
    log: Vec<(EventType, String)>,
    invites: Vec<String>,
    /// What was written or deleted, in order.
    writes: Vec<String>,
    /// The names of the writes that fail.
    failing: Vec<&'static str>,
    policy_allows: bool,
    /// Runs right before a failing write is reported.
    race: Option<Membership>,
    locked_counts: usize,
    next_id: usize,
}

fn db() -> Db {
    Db { policy_allows: true, orgs: vec!["org".to_owned(), "other".to_owned()], ..Db::default() }
}

fn site(mail_enabled: bool) -> Site {
    Site { domain: "https://vault".to_owned(), org_uuid: "org".to_owned(), mail_enabled }
}

fn user(id: &str, email: &str, registered: bool) -> User {
    let password_hash = if registered { vec![1, 2, 3] } else { vec![] };
    User { uuid: id.to_owned(), email: email.to_owned(), name: format!("Name {id}"), password_hash }
}

fn member(id: &str, user: &str, org: &str, status: i32, atype: i32) -> Membership {
    let mut member = Membership::new(id.to_owned(), user.to_owned(), org.to_owned(), None);
    member.status = status;
    member.atype = atype;
    member.akey = format!("akey-{id}");
    member
}

impl Db {
    fn write(&mut self, name: &'static str, what: &str) -> bool {
        if self.failing.contains(&name) {
            if let Some(row) = self.race.take() {
                self.members.push(row);
            }
            return false;
        }
        self.writes.push(format!("{name} {what}"));
        true
    }

    fn find_member(&self, id: &str) -> Option<Membership> {
        self.members.iter().find(|m| m.uuid == id && m.org_uuid == "org").map(Membership::copy)
    }

    fn status(&self, id: &str) -> i32 {
        self.members.iter().find(|m| m.uuid == id).expect("member").status
    }

    fn holder(&self, external_id: &str) -> Option<String> {
        self.members
            .iter()
            .find(|m| m.org_uuid == "org" && m.external_id.as_deref() == Some(external_id))
            .map(|m| m.uuid.clone())
    }

    fn save_member(&mut self, member: Membership) -> bool {
        if !self.write("member", &member.uuid) {
            return false;
        }
        match self.members.iter().position(|m| m.uuid == member.uuid) {
            Some(at) => self.members[at] = member,
            None => self.members.push(member),
        }
        true
    }

    fn perform(&mut self, command: UserCommand) -> UserReply {
        match command {
            UserCommand::FindByExternalId(id) => UserReply::Found(self.holder(&id)),
            UserCommand::CountActiveOwners { locked } => {
                self.locked_counts += usize::from(locked);
                let owners = self.members.iter().filter(|m| m.org_uuid == "org" && m.atype == 0 && m.status >= 0);
                UserReply::Owners(owners.count() as i64)
            }
            UserCommand::CheckPolicy(member) => {
                assert!(member.status >= 0, "the policies look at the restored status");
                UserReply::Allowed(self.policy_allows)
            }
            UserCommand::Save(member) => UserReply::Saved(self.save_member(member)),
            UserCommand::SendInvite(member) => {
                self.invites.push(member.uuid);
                UserReply::Noted
            }
            UserCommand::Log(event, id) => {
                self.log.push((event, id));
                UserReply::Noted
            }
            UserCommand::FindUser(id) => UserReply::Account(self.users.iter().find(|u| u.uuid == id).map(User::copy)),
        }
    }

    fn drive(&mut self, started: Result<(UserChange, UserStep), ScimError>) -> Answer {
        let (mut change, mut step) = started?;
        loop {
            match step {
                UserStep::Done(answer) => return answer,
                UserStep::Ask(command) => {
                    let reply = self.perform(command);
                    step = change.resume(reply);
                }
            }
        }
    }

    fn update_with_mail(
        &mut self,
        id: &str,
        active: Option<bool>,
        external_id: Option<&str>,
        mail_enabled: bool,
    ) -> Answer {
        let patch = UserPatch { active, external_id: external_id.map(str::to_owned) };
        let started = update_user(self.find_member(id), Ok(patch), site(mail_enabled));
        self.drive(started)
    }

    fn update(&mut self, id: &str, active: Option<bool>, external_id: Option<&str>) -> Answer {
        self.update_with_mail(id, active, external_id, true)
    }

    fn delete(&mut self, id: &str) -> Answer {
        let started = delete_user(self.find_member(id), site(true));
        self.drive(started)
    }

    fn provision_command(&mut self, command: ProvisionCommand) -> ProvisionReply {
        match command {
            ProvisionCommand::FindByExternalId(id) => ProvisionReply::Exists(self.holder(&id).is_some()),
            ProvisionCommand::FindAccount(email) => {
                let email = email.to_lowercase();
                ProvisionReply::Account(self.users.iter().find(|u| u.email == email).map(User::copy))
            }
            ProvisionCommand::FindMembership(id) => {
                ProvisionReply::Exists(self.members.iter().any(|m| m.user_uuid == id && m.org_uuid == "org"))
            }
            ProvisionCommand::FindOrganization => {
                let found = self.orgs.iter().any(|o| o == "org");
                ProvisionReply::Organization(found.then(|| Organization {
                    uuid: "org".to_owned(),
                    name: "The Org".to_owned(),
                    billing_email: "billing@org".to_owned(),
                }))
            }
            ProvisionCommand::SaveInvitation(email) => {
                let saved = self.write("invitation", &email);
                if saved {
                    self.invitations.push(email);
                }
                ProvisionReply::Saved(saved)
            }
            ProvisionCommand::TakeInvitation(email) => {
                self.write("take", &email);
                self.invitations.retain(|i| *i != email);
                ProvisionReply::Noted
            }
            ProvisionCommand::SaveAccount(user) => {
                let saved = self.write("account", &user.email);
                if saved {
                    self.users.push(user);
                }
                ProvisionReply::Saved(saved)
            }
            ProvisionCommand::DeleteAccount(user) => {
                let deleted = self.write("drop-account", &user.uuid);
                self.users.retain(|u| u.uuid != user.uuid);
                self.members.retain(|m| m.user_uuid != user.uuid);
                self.invitations.retain(|i| *i != user.email);
                ProvisionReply::Saved(deleted)
            }
            ProvisionCommand::FindAllMemberships(id) => ProvisionReply::Memberships(
                self.members.iter().filter(|m| m.user_uuid == id).map(|m| m.uuid.clone()).collect(),
            ),
            ProvisionCommand::SaveMembership(member) => ProvisionReply::Saved(self.save_member(member)),
            ProvisionCommand::DeleteMembership(member) => {
                let deleted = self.write("drop-member", &member.uuid);
                self.members.retain(|m| m.uuid != member.uuid);
                ProvisionReply::Saved(deleted)
            }
            ProvisionCommand::SendInvite(user, member, org) => {
                assert_eq!(org.name, "The Org");
                self.invites.push(format!("{} {}", user.email, member.uuid));
                ProvisionReply::Noted
            }
            ProvisionCommand::Log(event, id) => {
                self.log.push((event, id));
                ProvisionReply::Noted
            }
        }
    }

    fn post_gated(&mut self, request: ScimUserRequest, gates: SignupGates, mail_enabled: bool) -> Answer {
        self.next_id += 1;
        let (user_id, member_id) = (format!("new-user-{}", self.next_id), format!("new-member-{}", self.next_id));
        let (mut provisioning, mut step) = post_user(Ok(ScimJson(request)), gates, site(mail_enabled), user_id, member_id)?;
        loop {
            match step {
                ProvisionStep::Done(answer) => return answer,
                ProvisionStep::Ask(command) => {
                    let reply = self.provision_command(command);
                    step = provisioning.resume(reply);
                }
            }
        }
    }

    fn post(&mut self, request: ScimUserRequest, mail_enabled: bool) -> Answer {
        self.post_gated(request, OPEN, mail_enabled)
    }
}

const OPEN: SignupGates = SignupGates { email_valid: true, invitations_allowed: true, domain_allowed: true };

fn person(email: &str) -> ScimUserRequest {
    ScimUserRequest {
        user_name: Some(email.to_owned()),
        display_name: None,
        name: None,
        emails: vec![],
        external_id: None,
        active: None,
    }
}

fn body(answer: &ScimResponse) -> &Json {
    answer.body.as_ref().expect("body")
}

fn text<'a>(answer: &'a ScimResponse, name: &str) -> Option<&'a str> {
    match body(answer).get(name) {
        Some(Json::Text(text)) => Some(text),
        _ => None,
    }
}

fn active(answer: &ScimResponse) -> bool {
    matches!(body(answer).get("active"), Some(Json::Bool(true)))
}

fn refusal(answer: Answer) -> (u16, Option<&'static str>, String) {
    let e = answer.expect_err("must be refused");
    (e.status.code, e.scim_type, e.detail)
}

#[test]
fn post_creates_an_invited_member() {
    let mut db = db();
    let mut request = person("Provision.Me@Example.com");
    request.external_id = Some("entra-obj-001".to_owned());
    request.name = Some(ScimName {
        formatted: None,
        given_name: Some("Provision".to_owned()),
        family_name: Some("Me".to_owned()),
    });
    request.active = Some(ScimBool(true));
    let answer = db.post(request, true).expect("created");

    assert_eq!(answer.status.code, 201);
    assert_eq!(answer.location.as_deref(), Some("https://vault/scim/v2/org/Users/new-member-1"));
    assert_eq!(text(&answer, "userName"), Some("provision.me@example.com"), "email must be stored lowercased");
    assert_eq!(text(&answer, "displayName"), Some("Provision Me"));
    assert_eq!(text(&answer, "externalId"), Some("entra-obj-001"));
    assert_eq!(text(&answer, "id"), Some("new-member-1"));
    assert!(active(&answer));
    let row = &db.members[0];
    assert_eq!((row.status, row.atype, row.access_all, row.akey.as_str()), (0, 2, false, ""));
    assert_eq!(row.invited_by_email.as_deref(), Some("billing@org"));
    assert_eq!(db.invites, ["provision.me@example.com new-member-1"], "exactly one invite");
    assert_eq!(db.log, [(EventType::OrganizationUserInvited, "new-member-1".to_owned())]);
    assert!(db.invitations.is_empty(), "an invite mail needs no invitation row");
}

#[test]
fn post_links_an_account_with_credentials() {
    let mut db = db();
    db.users.push(user("u", "known@x.y", true));
    db.post(person("Known@X.y"), false).expect("created");
    assert_eq!(db.status("new-member-1"), 1, "no mail to wait for, and able to log in: Accepted");
    assert_eq!(db.writes, ["member new-member-1"], "the account is linked, not created");
    assert!(db.invites.is_empty());
}

#[test]
fn post_with_mail_waits_for_the_invitation_to_be_accepted() {
    let mut db = db();
    db.users.push(user("u", "known@x.y", true));
    db.post(person("known@x.y"), true).expect("created");
    assert_eq!(db.status("new-member-1"), 0);
}

#[test]
fn without_mail_an_unregistered_account_gets_an_invitation_row() {
    let mut db = db();
    db.users.push(user("u", "shell@x.y", false));
    db.post(person("shell@x.y"), false).expect("created");
    assert_eq!(db.invitations, ["shell@x.y"]);
    db.post(person("fresh@x.y"), false).expect("created");
    assert_eq!(db.invitations, ["shell@x.y", "fresh@x.y"]);
    assert_eq!(db.status("new-member-2"), 0);
}

#[test]
fn post_inactive_creates_a_revoked_member_and_sends_no_invite() {
    let mut db = db();
    let mut request = person("a@x.y");
    request.active = Some(ScimBool(false));
    let answer = db.post(request, true).expect("created");
    assert!(!active(&answer));
    assert_eq!(db.status("new-member-1"), -128);
    assert!(db.invites.is_empty());
    let events: Vec<EventType> = db.log.iter().map(|(event, _)| *event).collect();
    assert_eq!(events, [EventType::OrganizationUserInvited, EventType::OrganizationUserRevoked]);
}

#[test]
fn post_duplicates_are_uniqueness_conflicts() {
    let mut db = db();
    let mut request = person("a@x.y");
    request.external_id = Some("e".to_owned());
    db.post(request, true).expect("created");
    let before = db.writes.len();
    assert_eq!(
        refusal(db.post(person("A@x.y"), true)),
        (409, Some("uniqueness"), "A member with this userName already exists".to_owned())
    );
    let mut request = person("b@x.y");
    request.external_id = Some("e".to_owned());
    assert_eq!(
        refusal(db.post(request, true)),
        (409, Some("uniqueness"), "A member with this externalId already exists".to_owned())
    );
    assert_eq!(db.writes.len(), before, "a refused provisioning writes nothing");
}

#[test]
fn post_checks_what_it_is_sent() {
    let mut db = db();
    let too_long = |n: usize| "x".repeat(n);
    let mut no_address = person("not-an-email");
    no_address.emails = vec![ScimEmail { value: "second@x.y".to_owned(), primary: false }];
    assert_eq!(
        refusal(db.post(no_address, true)),
        (400, Some("invalidValue"), "userName (or a primary email) must be an email address".to_owned())
    );
    let gates = SignupGates { email_valid: false, ..OPEN };
    assert_eq!(
        refusal(db.post_gated(person("a@@"), gates, true)),
        (400, Some("invalidValue"), "userName is not a valid email address".to_owned())
    );
    let long_email = format!("{}@x.y", too_long(252));
    assert_eq!(
        refusal(db.post(person(&long_email), true)),
        (400, Some("invalidValue"), "userName must be at most 255 characters".to_owned())
    );
    let mut request = person("a@x.y");
    request.name =
        Some(ScimName { formatted: None, given_name: Some(too_long(255)), family_name: Some("f".repeat(20)) });
    assert_eq!(
        refusal(db.post(request, true)),
        (400, Some("invalidValue"), "displayName must be at most 255 characters".to_owned())
    );
    let mut request = person("a@x.y");
    request.external_id = Some(too_long(301));
    assert_eq!(
        refusal(db.post(request, true)),
        (400, Some("invalidValue"), "externalId must be at most 300 characters".to_owned())
    );
    // Counted in characters, not bytes.
    let mut request = person("a@x.y");
    request.external_id = Some("é".repeat(300));
    assert!(db.post(request, true).is_ok());
}

#[test]
fn the_primary_address_stands_in_for_the_user_name() {
    let mut db = db();
    let mut request = person("login-name");
    request.emails = vec![
        ScimEmail { value: "second@x.y".to_owned(), primary: false },
        ScimEmail { value: "first@x.y".to_owned(), primary: true },
    ];
    let answer = db.post(request, true).expect("created");
    assert_eq!(text(&answer, "userName"), Some("first@x.y"));
    assert_eq!(text(&answer, "displayName"), Some("first@x.y"), "the address stands in for a name");
}

#[test]
fn the_signup_gates_refuse_new_accounts_and_write_nothing() {
    for (gates, detail) in [
        (
            SignupGates { invitations_allowed: false, ..OPEN },
            "Creating new accounts is disabled on this server",
        ),
        (SignupGates { domain_allowed: false, ..OPEN }, "Email domain is not eligible for invitations"),
    ] {
        let mut db = db();
        assert_eq!(
            refusal(db.post_gated(person("a@x.y"), gates, false)),
            (400, Some("invalidValue"), detail.to_owned())
        );
        assert!(db.writes.is_empty());
        // An account that exists is linked all the same.
        db.users.push(user("u", "a@x.y", true));
        assert!(db.post_gated(person("a@x.y"), gates, false).is_ok());
    }
}

#[test]
fn a_missing_organization_is_an_internal_error() {
    let mut db = db();
    db.orgs.clear();
    assert_eq!(refusal(db.post(person("a@x.y"), true)).0, 500);
    assert!(db.writes.is_empty());
}

#[test]
fn a_failed_membership_takes_back_what_was_created() {
    let mut db = db();
    db.failing = vec!["member"];
    assert_eq!(refusal(db.post(person("a@x.y"), false)).0, 500);
    assert!(db.users.is_empty(), "the shell account is gone");
    assert!(db.invitations.is_empty(), "and its invitation with it");
}

#[test]
fn rollback_spares_accounts_that_existed_before() {
    let mut db = db();
    db.users.push(user("u", "a@x.y", false));
    db.failing = vec!["member"];
    assert_eq!(refusal(db.post(person("a@x.y"), false)).0, 500);
    assert_eq!(db.users.len(), 1);
    assert!(db.invitations.is_empty(), "an invitation this request wrote is taken back");
    assert_eq!(db.writes, ["invitation a@x.y", "drop-member new-member-1", "take a@x.y"]);
}

#[test]
fn rollback_spares_an_account_another_org_has_claimed() {
    let mut db = db();
    db.failing = vec!["member"];
    db.race = Some(member("claimed", "new-user-1", "other", 0, 2));
    assert_eq!(refusal(db.post(person("a@x.y"), true)).0, 500);
    assert_eq!(db.users.len(), 1, "deleting the account would cascade the other membership away");
    assert_eq!(db.members.len(), 1);

    assert!(account_is_ours(true, "m", &vec![]));
    assert!(account_is_ours(true, "m", &vec!["m".to_owned()]));
    assert!(!account_is_ours(true, "m", &vec!["m".to_owned(), "n".to_owned()]));
    assert!(!account_is_ours(false, "m", &vec![]));
}

#[test]
fn losing_the_race_for_a_membership_is_a_conflict() {
    let mut db = db();
    db.users.push(user("u", "a@x.y", true));
    db.failing = vec!["member"];
    db.race = Some(member("winner", "u", "org", 0, 2));
    assert_eq!(
        refusal(db.post(person("a@x.y"), true)),
        (409, Some("uniqueness"), "A member with this userName already exists".to_owned())
    );
    assert_eq!(db.members.len(), 1, "the winner's row must survive");
}

#[test]
fn a_failed_invitation_drops_the_orphan_unless_it_was_claimed() {
    let mut db = db();
    db.failing = vec!["invitation"];
    assert_eq!(refusal(db.post(person("a@x.y"), false)).0, 500);
    assert!(db.users.is_empty());

    db.race = Some(member("claimed", "new-user-2", "other", 0, 2));
    assert_eq!(refusal(db.post(person("b@x.y"), false)).0, 500);
    assert_eq!(db.users.len(), 1);
}

#[test]
fn patch_active_lifecycle_hits_the_status_offsets() {
    for status in [0, 1, 2] {
        let mut db = db();
        db.users.push(user("u", "a@x.y", true));
        db.members.push(member("m", "u", "org", status, 2));
        let answer = db.update("m", Some(false), None).expect("revoked");
        assert!(!active(&answer));
        assert_eq!(db.status("m"), status - 128);
        assert!(db.update("m", Some(false), None).is_ok(), "deprovisioning is idempotent");
        let answer = db.update("m", Some(true), None).expect("restored");
        assert!(active(&answer));
        assert_eq!(db.status("m"), status);
        assert_eq!(db.members[0].akey, "akey-m", "the wrapped key survives");
        let events: Vec<EventType> = db.log.iter().map(|(event, _)| *event).collect();
        assert_eq!(events, [EventType::OrganizationUserRevoked, EventType::OrganizationUserRestored]);
        assert_eq!(db.locked_counts, 0, "ordinary members never take the owner lock");
        // Only a member who never joined is invited again.
        assert_eq!(db.invites.len(), usize::from(status == 0));
    }
}

#[test]
fn delete_revokes_and_keeps_the_row() {
    let mut db = db();
    db.members.push(member("m", "u", "org", 2, 2));
    let answer = db.delete("m").expect("deleted");
    assert_eq!((answer.status.code, answer.body.is_none()), (204, true));
    assert_eq!(db.status("m"), -126);
    assert_eq!(db.delete("m").expect("again").status.code, 204);
    assert_eq!(db.writes, ["member m"]);
    assert_eq!(refusal(db.delete("missing")), (404, None, "Resource not found".to_owned()));
}

#[test]
fn the_last_active_owner_cannot_be_revoked() {
    for sole_status in [0, 1, 2] {
        let mut db = db();
        db.users.push(user("u", "a@x.y", true));
        db.members.push(member("m", "u", "org", sole_status, 0));
        let expected =
            (400, Some("mutability"), "Cannot revoke the last owner of the organization".to_owned());
        assert_eq!(refusal(db.update("m", Some(false), Some("new-ext"))), expected);
        assert_eq!(refusal(db.delete("m")), expected);
        assert!(db.writes.is_empty(), "a refused change writes nothing");

        db.members.push(member("n", "v", "org", 0, 0));
        assert!(db.update("m", Some(false), None).is_ok());
        assert_eq!(db.locked_counts, 2, "the count that decides is taken under the lock");
        assert_eq!(refusal(db.delete("n")).0, 400);
    }
}

#[test]
fn administrators_are_deprovisioned_but_never_reinstated_or_linked() {
    for atype in [0, 1, 3] {
        let mut db = db();
        db.users.push(user("u", "a@x.y", true));
        db.members.push(member("m", "u", "org", 2, atype));
        db.members.push(member("owner", "v", "org", 2, 0));
        assert_eq!(refusal(db.update("m", None, Some("ext"))).1, Some("mutability"));
        assert!(db.update("m", Some(false), None).is_ok());
        let (code, scim_type, _) = refusal(db.update("m", Some(true), None));
        assert_eq!((code, scim_type), (400, Some("mutability")));
        assert!(db.status("m") < 0);

        // Unlinking is not a grant.
        let at = db.members.iter().position(|m| m.uuid == "m").expect("row");
        db.members[at].external_id = Some("linked".to_owned());
        assert!(db.update("m", None, Some("")).is_ok());
        assert_eq!(db.members[at].external_id, None);
    }
}

#[test]
fn external_ids_are_unique_within_the_organization() {
    let mut db = db();
    db.users.push(user("u", "a@x.y", true));
    db.members.push(member("m", "u", "org", 2, 2));
    db.members.push(member("n", "v", "org", 2, 2));
    let answer = db.update("m", None, Some("ext-1")).expect("set");
    assert_eq!(text(&answer, "externalId"), Some("ext-1"));
    assert_eq!(db.log, [(EventType::OrganizationUserUpdated, "m".to_owned())]);
    assert!(db.update("m", None, Some("ext-1")).is_ok(), "repeating it stays a success");
    assert_eq!(db.writes.len(), 1, "and is no write");
    assert_eq!(
        refusal(db.update("n", None, Some("ext-1"))),
        (409, Some("uniqueness"), "A member with this externalId already exists".to_owned())
    );
    assert_eq!(
        refusal(db.update("n", None, Some(&"x".repeat(301)))).2,
        "externalId must be at most 300 characters"
    );
    let answer = db.update("m", None, Some("")).expect("cleared");
    assert!(matches!(body(&answer).get("externalId"), Some(Json::Null)));
    let writes = db.writes.len();
    assert!(db.update("m", None, Some("")).is_ok(), "clearing an absent one is no write");
    assert_eq!(db.writes.len(), writes);
}

#[test]
fn losing_the_race_for_an_external_id_is_a_conflict() {
    let mut db = db();
    db.users.push(user("u", "a@x.y", true));
    db.members.push(member("m", "u", "org", 2, 2));
    db.failing = vec!["member"];
    assert_eq!(refusal(db.update("m", None, Some("e"))).0, 500);
    let mut winner = member("n", "v", "org", 2, 2);
    winner.external_id = Some("e".to_owned());
    db.race = Some(winner);
    assert_eq!(refusal(db.update("m", None, Some("e"))).0, 409);
}

#[test]
fn a_policy_blocked_restore_leaves_the_member_revoked() {
    let mut db = db();
    db.users.push(user("u", "a@x.y", true));
    db.members.push(member("m", "u", "org", -126, 2));
    db.policy_allows = false;
    assert_eq!(
        refusal(db.update("m", Some(true), None)),
        (400, Some("invalidValue"), "Restore is blocked by an organization policy".to_owned())
    );
    assert_eq!(db.status("m"), -126);
    assert!(db.writes.is_empty());
}

#[test]
fn one_request_can_change_both_attributes() {
    let mut db = db();
    db.users.push(user("u", "a@x.y", true));
    db.members.push(member("m", "u", "org", -128, 2));
    let answer = db.update("m", Some(true), Some("e")).expect("changed");
    assert!(active(&answer));
    assert_eq!(text(&answer, "externalId"), Some("e"));
    assert_eq!(db.writes, ["member m", "member m"]);
    assert_eq!(db.invites, ["m"]);
    db.update_with_mail("m", Some(false), None, false).expect("revoked");
    db.update_with_mail("m", Some(true), None, false).expect("restored");
    assert_eq!(db.invites, ["m"], "no mail, no invite");
}

#[test]
fn a_patch_of_ignored_attributes_answers_the_current_state() {
    let mut db = db();
    db.users.push(user("u", "a@x.y", true));
    db.members.push(member("m", "u", "org", 2, 2));
    let answer = db.update("m", None, None).expect("accepted");
    assert_eq!(text(&answer, "displayName"), Some("Name u"));
    assert!(db.writes.is_empty());
}

#[test]
fn missing_rows_are_told_apart() {
    let mut db = db();
    assert_eq!(refusal(db.update("missing", None, None)).0, 404);
    // A body that was refused does not hide a missing member.
    let started = update_user(None, Err(ScimError::payload_too_large()), site(true));
    assert_eq!(refusal(db.drive(started)).0, 404);
    let started = update_user(Some(member("m", "u", "org", 2, 2)), Err(ScimError::payload_too_large()), site(true));
    assert_eq!(refusal(db.drive(started)).0, 413);
    db.members.push(member("m", "u", "org", 2, 2));
    assert_eq!(refusal(db.update("m", None, None)).0, 500, "a membership always has an account");
    assert_eq!(refusal(get_user(None, None, &site(true))).0, 404);
    assert_eq!(refusal(get_user(db.find_member("m"), None, &site(true))).0, 500);
    let answer = get_user(db.find_member("m"), Some(user("u", "a@x.y", true)), &site(true)).expect("found");
    assert_eq!((answer.status.code, text(&answer, "id")), (200, Some("m")));
}

#[test]
fn a_reply_that_was_not_asked_for_is_an_internal_error() {
    let (mut change, step) =
        update_user(Some(member("m", "u", "org", 2, 2)), Ok(UserPatch { active: None, external_id: None }), site(true))
            .expect("started");
    assert!(matches!(step, UserStep::Ask(UserCommand::FindUser(_))));
    match change.resume(UserReply::Noted) {
        UserStep::Done(Err(e)) => assert_eq!(e.status.code, 500),
        other => panic!("unexpected {other:?}"),
    }
}

#[test]
fn request_bodies_are_accepted_or_refused() {
    let read = |outcome: BodyOutcome<u8>| match ScimJson::from_data(outcome) {
        Ok(ScimJson(value)) => Ok(value),
        Err(e) => Err((e.status.code, e.scim_type, e.detail)),
    };
    assert_eq!(read(BodyOutcome::Understood(7)), Ok(7));
    assert_eq!(read(BodyOutcome::Malformed), Err((400, Some("invalidSyntax"), "Malformed SCIM body".to_owned())));
    assert_eq!(read(BodyOutcome::Truncated), Err((413, None, "Payload too large".to_owned())));
    assert_eq!(read(BodyOutcome::Unreadable), Err((400, Some("invalidSyntax"), "Unreadable body".to_owned())));
}

#[test]
fn put_and_patch_change_what_the_directory_owns() {
    let mut db = db();
    db.users.push(user("u", "a@x.y", true));
    db.members.push(member("m", "u", "org", 2, 2));
    let mut request = person("renamed@x.y");
    request.display_name = Some("Renamed".to_owned());
    request.active = Some(ScimBool(false));
    request.external_id = Some("e".to_owned());
    let started = put_user(db.find_member("m"), Ok(ScimJson(request)), site(true));
    let answer = db.drive(started).expect("replaced");
    assert!(!active(&answer));
    assert_eq!(text(&answer, "externalId"), Some("e"));
    assert_eq!(text(&answer, "userName"), Some("a@x.y"), "the login identity does not sync");
    assert_eq!(text(&answer, "displayName"), Some("Name u"), "nor does the name");

    let operation = PatchOperation {
        op: "Replace".to_owned(),
        path: Some("active".to_owned()),
        value: Some(Json::text("True")),
    };
    let body = PatchOp { schemas: vec![PATCH_OP_URN.to_owned()], operations: vec![operation] };
    let started = patch_user(db.find_member("m"), Ok(ScimJson(body)), site(true));
    assert!(active(&db.drive(started).expect("patched")));
    assert_eq!(db.status("m"), 2);

    // A missing member is reported before a refused body.
    let started = put_user(None, Err(ScimError::payload_too_large()), site(true));
    assert_eq!(refusal(db.drive(started)).0, 404);
    let started = patch_user(None, Err(ScimError::payload_too_large()), site(true));
    assert_eq!(refusal(db.drive(started)).0, 404);
    let started = put_user(db.find_member("m"), Err(ScimError::payload_too_large()), site(true));
    assert_eq!(refusal(db.drive(started)).0, 413);
}
