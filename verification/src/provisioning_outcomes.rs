//! What comes of a provisioning, from its first question to its answer.

use vstd::prelude::*;

use crate::account::{EventType, OrganizationView, UserView};
use crate::error::ScimErrorView;
use crate::json::JsonView;
use crate::membership::MembershipView;
use crate::provisioning::{
    new_user, provisioning_of, NewUserView, ProvisionCommandView, ProvisionPhase,
    ProvisionReplyView, ProvisionStepView, ProvisioningView, SignupGates,
};
use crate::provisioning_laws::run;
use crate::representation_laws::{
    is_text, law_users_show_their_accounts, law_users_show_their_ids, law_users_show_their_state,
};
use crate::scim::ScimResponseView;
use crate::text::{decimal_text, lowered};
use crate::users::{scim_user, SiteView};
use crate::users_outcomes::refusal;

verus! {

/// The externalId that a person asks for: an empty one is none.
pub open spec fn wanted_external_id(person: NewUserView) -> Option<Seq<char>> {
    match person.external_id {
        Some(id) if id.len() > 0 => Some(id),
        _ => None,
    }
}

/// The account that is made for a person who has none.
pub open spec fn fresh_account(person: NewUserView, user_uuid: Seq<char>) -> UserView {
    UserView {
        uuid: user_uuid,
        email: lowered(person.email),
        name: match person.display_name {
            Some(name) => name,
            None => lowered(person.email),
        },
        password_hash: Seq::empty(),
    }
}

/// The membership that links an account to the organization: an ordinary one, without a key,
/// under the externalId asked for. It is accepted at once where the account can log in and no
/// mail is sent, and invited otherwise; it begins revoked where that was asked for.
pub open spec fn link(
    member_uuid: Seq<char>,
    user: UserView,
    org: OrganizationView,
    person: NewUserView,
    site: SiteView,
) -> MembershipView {
    MembershipView {
        uuid: member_uuid,
        user_uuid: user.uuid,
        org_uuid: site.org_uuid,
        invited_by_email: Some(org.billing_email),
        access_all: false,
        akey: Seq::empty(),
        status: (if user.password_hash.len() > 0 && !site.mail_enabled {
            1int
        } else {
            0int
        }) - (if person.active {
            0int
        } else {
            128int
        }),
        atype: 2,
        external_id: wanted_external_id(person),
    }
}

proof fn lemma_link(
    member_uuid: Seq<char>,
    user: UserView,
    org: OrganizationView,
    person: NewUserView,
    site: SiteView,
)
    ensures
        crate::provisioning::new_membership(member_uuid, user, org, person, site) == link(
            member_uuid,
            user,
            org,
            person,
            site,
        ),
{
}

// ---------------------------------------------------------------------------
// Whatever the database replies
// ---------------------------------------------------------------------------

spec fn true_to_request(
    state: (ProvisioningView, ProvisionStepView),
    person: NewUserView,
    site: SiteView,
    user_uuid: Seq<char>,
    member_uuid: Seq<char>,
) -> bool {
    let p = state.0;
    &&& p.person == person
    &&& p.site == site
    &&& p.user_uuid == user_uuid
    &&& p.member_uuid == member_uuid
    &&& p.phase is CheckExternalId || p.phase is FindAccount || p.phase is CheckMembership
        || p.phase is FindOrganization || p.phase is InviteExisting || p.phase is SaveAccount
        || p.phase is FindRaced || p.phase is InviteNew || p.phase is CheckOrphan
        || p.phase is DropOrphan ==> p.member is None
    &&& p.member is Some ==> p.user is Some && p.org is Some && p.member == Some(
        link(member_uuid, p.user->Some_0, p.org->Some_0, person, site),
    )
    &&& state.1 matches ProvisionStepView::Ask(ProvisionCommandView::SaveMembership(saved))
        ==> p.member == Some(saved)
    &&& state.1 matches ProvisionStepView::Done(Ok(response)) ==> p.member is Some && response.body
        == Some(scim_user(p.member->Some_0, p.user->Some_0, site))
    &&& state.1 matches ProvisionStepView::Ask(ProvisionCommandView::SaveAccount(user)) ==> user
        == fresh_account(person, user_uuid)
    &&& state.1 matches ProvisionStepView::Ask(ProvisionCommandView::FindByExternalId(id))
        ==> person.external_id == Some(id)
    &&& state.1 matches ProvisionStepView::Ask(ProvisionCommandView::FindAccount(email)) ==> email
        == person.email
    &&& state.1 matches ProvisionStepView::Ask(ProvisionCommandView::Log(event, id)) ==> id
        == member_uuid && (event == EventType::OrganizationUserInvited || event
        == EventType::OrganizationUserRevoked && !person.active)
    &&& state.1 matches ProvisionStepView::Ask(ProvisionCommandView::SendInvite(user, member, org))
        ==> p.user == Some(user) && p.member == Some(member) && p.org == Some(org)
    &&& state.1 matches ProvisionStepView::Ask(ProvisionCommandView::SaveInvitation(email))
        ==> p.user is Some && email == p.user->Some_0.email && !site.mail_enabled
    &&& state.1 matches ProvisionStepView::Ask(ProvisionCommandView::FindMembership(id))
        ==> p.user is Some && id == p.user->Some_0.uuid
}

proof fn lemma_creation_stays_true(
    p: ProvisioningView,
    person: NewUserView,
    site: SiteView,
    user_uuid: Seq<char>,
    member_uuid: Seq<char>,
)
    requires
        p.person == person,
        p.site == site,
        p.user_uuid == user_uuid,
        p.member_uuid == member_uuid,
        p.member is None,
    ensures
        true_to_request(p.create_member(), person, site, user_uuid, member_uuid),
{
    if p.user is Some && p.org is Some {
        lemma_link(member_uuid, p.user->Some_0, p.org->Some_0, person, site);
    }
}

proof fn lemma_search_stays_true(
    before: (ProvisioningView, ProvisionStepView),
    reply: ProvisionReplyView,
    person: NewUserView,
    site: SiteView,
    user_uuid: Seq<char>,
    member_uuid: Seq<char>,
)
    requires
        true_to_request(before, person, site, user_uuid, member_uuid),
    ensures
        before.0.phase is CheckExternalId || before.0.phase is FindAccount
            || before.0.phase is CheckMembership || before.0.phase is FindOrganization
            ==> true_to_request(before.0.resume(reply), person, site, user_uuid, member_uuid),
{
    if before.0.phase is FindOrganization {
        if let ProvisionReplyView::Organization(Some(org)) = reply {
            lemma_creation_stays_true(
                ProvisioningView { org: Some(org), ..before.0 },
                person,
                site,
                user_uuid,
                member_uuid,
            );
        }
    }
}

proof fn lemma_account_stays_true(
    before: (ProvisioningView, ProvisionStepView),
    reply: ProvisionReplyView,
    person: NewUserView,
    site: SiteView,
    user_uuid: Seq<char>,
    member_uuid: Seq<char>,
)
    requires
        true_to_request(before, person, site, user_uuid, member_uuid),
    ensures
        before.0.phase is InviteExisting || before.0.phase is SaveAccount
            || before.0.phase is FindRaced || before.0.phase is InviteNew
            || before.0.phase is CheckOrphan || before.0.phase is DropOrphan ==> true_to_request(
            before.0.resume(reply),
            person,
            site,
            user_uuid,
            member_uuid,
        ),
{
    let p = before.0;
    if p.member is None {
        lemma_creation_stays_true(
            ProvisioningView { invitation_created: true, ..p },
            person,
            site,
            user_uuid,
            member_uuid,
        );
        lemma_creation_stays_true(
            ProvisioningView { user_created: true, ..p },
            person,
            site,
            user_uuid,
            member_uuid,
        );
        if let ProvisionReplyView::Account(found) = reply {
            lemma_creation_stays_true(
                ProvisioningView { user: found, ..p },
                person,
                site,
                user_uuid,
                member_uuid,
            );
        }
    }
}

proof fn lemma_member_stays_true(
    before: (ProvisioningView, ProvisionStepView),
    reply: ProvisionReplyView,
    person: NewUserView,
    site: SiteView,
    user_uuid: Seq<char>,
    member_uuid: Seq<char>,
)
    requires
        true_to_request(before, person, site, user_uuid, member_uuid),
    ensures
        before.0.phase is SaveMembership || before.0.phase is RecheckMembership
            || before.0.phase is Rollback || before.0.phase is RollbackMembership
            || before.0.phase is RollbackAccount || before.0.phase is RollbackInvitation
            || before.0.phase is SendInvite || before.0.phase is LogInvited
            || before.0.phase is LogRevoked || before.0.phase is Finished ==> true_to_request(
            before.0.resume(reply),
            person,
            site,
            user_uuid,
            member_uuid,
        ),
{
}

proof fn lemma_true_to_request(
    person: NewUserView,
    gates: SignupGates,
    site: SiteView,
    user_uuid: Seq<char>,
    member_uuid: Seq<char>,
    replies: Seq<ProvisionReplyView>,
)
    ensures
        true_to_request(
            run(provisioning_of(person, gates, site, user_uuid, member_uuid).begin(), replies),
            person,
            site,
            user_uuid,
            member_uuid,
        ),
    decreases replies.len(),
{
    let start = provisioning_of(person, gates, site, user_uuid, member_uuid).begin();
    if replies.len() > 0 {
        lemma_true_to_request(person, gates, site, user_uuid, member_uuid, replies.drop_last());
        let before = run(start, replies.drop_last());
        if before.1 is Ask {
            lemma_search_stays_true(before, replies.last(), person, site, user_uuid, member_uuid);
            lemma_account_stays_true(before, replies.last(), person, site, user_uuid, member_uuid);
            lemma_member_stays_true(before, replies.last(), person, site, user_uuid, member_uuid);
        }
    }
}

/// Whenever provisioning asks to write a membership, it is one for the person of the request:
/// under the externalId of the request, whatever account it is linked to, with none where the
/// request has none or an empty one; an ordinary one of this organization, as active as was
/// asked for; and in the name of the account and the organization that were found.
pub proof fn law_written_members_are_as_requested(
    person: NewUserView,
    gates: SignupGates,
    site: SiteView,
    user_uuid: Seq<char>,
    member_uuid: Seq<char>,
    replies: Seq<ProvisionReplyView>,
    saved: MembershipView,
)
    requires
        run(provisioning_of(person, gates, site, user_uuid, member_uuid).begin(), replies).1
            == ProvisionStepView::Ask(ProvisionCommandView::SaveMembership(saved)),
    ensures
        saved.external_id == (if person.external_id is Some && person.external_id->Some_0.len() > 0 {
            person.external_id
        } else {
            None
        }),
        saved.uuid == member_uuid,
        saved.org_uuid == site.org_uuid,
        saved.atype == 2 && !saved.access_all && saved.akey.len() == 0,
        saved.status >= 0 <==> person.active,
        ({
            let p = run(
                provisioning_of(person, gates, site, user_uuid, member_uuid).begin(),
                replies,
            ).0;
            &&& p.user matches Some(user) && saved.user_uuid == user.uuid
            &&& p.org matches Some(org) && saved.invited_by_email == Some(org.billing_email)
        }),
{
    lemma_true_to_request(person, gates, site, user_uuid, member_uuid, replies);
}

/// A provisioning that succeeds shows what it wrote: the id and the externalId of the request,
/// the activity that was asked for, and the address of the account it was linked to.
pub proof fn law_answers_show_what_was_requested(
    person: NewUserView,
    gates: SignupGates,
    site: SiteView,
    user_uuid: Seq<char>,
    member_uuid: Seq<char>,
    replies: Seq<ProvisionReplyView>,
    response: ScimResponseView,
)
    requires
        run(provisioning_of(person, gates, site, user_uuid, member_uuid).begin(), replies).1
            == ProvisionStepView::Done(Ok(response)),
    ensures
        response.body matches Some(body) && is_text(body.get("id"@), member_uuid) && body.get(
            "externalId"@,
        ) == Some(
            if person.external_id is Some && person.external_id->Some_0.len() > 0 {
                JsonView::Text(person.external_id->Some_0)
            } else {
                JsonView::Null
            },
        ) && body.get("active"@) == Some(JsonView::Bool(person.active)),
        ({
            let p = run(
                provisioning_of(person, gates, site, user_uuid, member_uuid).begin(),
                replies,
            ).0;
            p.user matches Some(user) && is_text(
                response.body->Some_0.get("userName"@),
                user.email,
            ) && is_text(response.body->Some_0.get("displayName"@), user.name)
        }),
{
    lemma_true_to_request(person, gates, site, user_uuid, member_uuid, replies);
    let p = run(provisioning_of(person, gates, site, user_uuid, member_uuid).begin(), replies).0;
    law_users_show_their_ids(p.member->Some_0, p.user->Some_0, site);
    law_users_show_their_accounts(p.member->Some_0, p.user->Some_0, site);
    law_users_show_their_state(p.member->Some_0, p.user->Some_0, site);
}

/// Provisioning looks for the externalId and the address of the request and for nothing else;
/// an account it makes is the person's, without credentials; what it records, it records of
/// the new member, and an invitation to register is only written where no mail is sent, for
/// the address of the account.
pub proof fn law_questions_are_about_the_request(
    person: NewUserView,
    gates: SignupGates,
    site: SiteView,
    user_uuid: Seq<char>,
    member_uuid: Seq<char>,
    replies: Seq<ProvisionReplyView>,
    command: ProvisionCommandView,
)
    requires
        run(provisioning_of(person, gates, site, user_uuid, member_uuid).begin(), replies).1
            == ProvisionStepView::Ask(command),
    ensures
        ({
            let p = run(
                provisioning_of(person, gates, site, user_uuid, member_uuid).begin(),
                replies,
            ).0;
            match command {
                ProvisionCommandView::FindByExternalId(id) => person.external_id == Some(id),
                ProvisionCommandView::FindAccount(email) => email == person.email,
                ProvisionCommandView::FindMembership(id) => p.user matches Some(user) && id
                    == user.uuid,
                ProvisionCommandView::SaveAccount(user) => user.uuid == user_uuid && user.email
                    == lowered(person.email) && user.password_hash.len() == 0 && user.name == (
                match person.display_name {
                    Some(name) => name,
                    None => lowered(person.email),
                }),
                ProvisionCommandView::SaveInvitation(email) => !site.mail_enabled && (
                p.user matches Some(user) && email == user.email),
                ProvisionCommandView::SendInvite(user, member, org) => p.user == Some(user)
                    && p.member == Some(member) && p.org == Some(org),
                ProvisionCommandView::Log(event, id) => id == member_uuid && (event
                    == EventType::OrganizationUserInvited || event
                    == EventType::OrganizationUserRevoked && !person.active),
                _ => true,
            }
        }),
{
    lemma_true_to_request(person, gates, site, user_uuid, member_uuid, replies);
}

// ---------------------------------------------------------------------------
// From the first question to the answer
// ---------------------------------------------------------------------------

/// A database, as a provisioning meets it.
pub ghost struct Directory {
    /// Whether a member of the organization has an externalId.
    pub linked: spec_fn(Seq<char>) -> bool,
    /// The account with an address.
    pub account: spec_fn(Seq<char>) -> Option<UserView>,
    /// Whether an account is a member of the organization.
    pub joined: spec_fn(Seq<char>) -> bool,
    pub org: Option<OrganizationView>,
    /// Whether an account, an invitation and a membership can be written.
    pub saves_account: bool,
    pub saves_invitation: bool,
    pub saves_member: bool,
    /// The account with the address, and whether the account is a member, once a write has
    /// failed.
    pub rival: Option<UserView>,
    pub rival_joined: bool,
    /// The memberships of the account in any organization, once a write has failed.
    pub memberships: Seq<Seq<char>>,
}

impl Directory {
    /// What the database replies to a command.
    pub open spec fn reply(self, command: ProvisionCommandView, failed: bool) -> ProvisionReplyView {
        match command {
            ProvisionCommandView::FindByExternalId(id) => ProvisionReplyView::Exists(
                (self.linked)(id),
            ),
            ProvisionCommandView::FindAccount(email) => ProvisionReplyView::Account(
                if failed {
                    self.rival
                } else {
                    (self.account)(email)
                },
            ),
            ProvisionCommandView::FindMembership(id) => ProvisionReplyView::Exists(
                if failed {
                    self.rival_joined
                } else {
                    (self.joined)(id)
                },
            ),
            ProvisionCommandView::FindOrganization => ProvisionReplyView::Organization(self.org),
            ProvisionCommandView::SaveInvitation(_) => ProvisionReplyView::Saved(
                self.saves_invitation,
            ),
            ProvisionCommandView::SaveAccount(_) => ProvisionReplyView::Saved(self.saves_account),
            ProvisionCommandView::SaveMembership(_) => ProvisionReplyView::Saved(self.saves_member),
            ProvisionCommandView::DeleteAccount(_) => ProvisionReplyView::Saved(true),
            ProvisionCommandView::DeleteMembership(_) => ProvisionReplyView::Saved(true),
            ProvisionCommandView::FindAllMemberships(_) => ProvisionReplyView::Memberships(
                self.memberships,
            ),
            _ => ProvisionReplyView::Noted,
        }
    }
}

/// What a provisioning asks for, and how it ends: so many commands of it.
pub open spec fn play(
    db: Directory,
    state: (ProvisioningView, ProvisionStepView),
    failed: bool,
    commands: nat,
) -> (Seq<ProvisionCommandView>, Option<Result<ScimResponseView, ScimErrorView>>)
    decreases commands,
{
    match state.1 {
        ProvisionStepView::Done(answer) => (Seq::empty(), Some(answer)),
        ProvisionStepView::Ask(command) => if commands == 0 {
            (Seq::empty(), None)
        } else {
            let reply = db.reply(command, failed);
            let rest = play(
                db,
                state.0.resume(reply),
                failed || reply == ProvisionReplyView::Saved(false),
                (commands - 1) as nat,
            );
            (seq![command] + rest.0, rest.1)
        },
    }
}

/// One command where a condition holds.
pub open spec fn only_if(condition: bool, command: ProvisionCommandView) -> Seq<
    ProvisionCommandView,
> {
    if condition {
        seq![command]
    } else {
        Seq::empty()
    }
}

/// What is looked up first: the externalId, and the account.
pub open spec fn looking(person: NewUserView) -> Seq<ProvisionCommandView> {
    only_if(
        person.external_id is Some,
        ProvisionCommandView::FindByExternalId(person.external_id->Some_0),
    ) + seq![ProvisionCommandView::FindAccount(person.email)]
}

/// What is asked for to write the membership, tell of it and record it.
pub open spec fn joining(
    member_uuid: Seq<char>,
    user: UserView,
    org: OrganizationView,
    person: NewUserView,
    site: SiteView,
) -> Seq<ProvisionCommandView> {
    let member = link(member_uuid, user, org, person, site);
    seq![ProvisionCommandView::SaveMembership(member)] + only_if(
        person.active && site.mail_enabled,
        ProvisionCommandView::SendInvite(user, member, org),
    ) + seq![ProvisionCommandView::Log(EventType::OrganizationUserInvited, member_uuid)] + only_if(
        !person.active,
        ProvisionCommandView::Log(EventType::OrganizationUserRevoked, member_uuid),
    )
}

/// Whether a provisioning ends with the new member, created at its place.
pub open spec fn created(
    end: Option<Result<ScimResponseView, ScimErrorView>>,
    member_uuid: Seq<char>,
    user: UserView,
    org: OrganizationView,
    person: NewUserView,
    site: SiteView,
) -> bool {
    end matches Some(Ok(response)) && response.status == 201 && response.location == Some(
        site.domain + "/scim/v2/"@ + site.org_uuid + "/"@ + "Users"@ + "/"@ + member_uuid,
    ) && response.body == Some(
        scim_user(link(member_uuid, user, org, person, site), user, site),
    )
}

proof fn lemma_create_member(
    db: Directory,
    p: ProvisioningView,
    user: UserView,
    org: OrganizationView,
    failed: bool,
    more: nat,
)
    requires
        p.user == Some(user),
        p.org == Some(org),
        db.saves_member,
        more >= 4,
    ensures
        play(db, p.create_member(), failed, more).0 == joining(
            p.member_uuid,
            user,
            org,
            p.person,
            p.site,
        ),
        created(
            play(db, p.create_member(), failed, more).1,
            p.member_uuid,
            user,
            org,
            p.person,
            p.site,
        ),
{
    reveal_with_fuel(play, 5);
    lemma_link(p.member_uuid, user, org, p.person, p.site);
    let played = play(db, p.create_member(), failed, more).0;
    let expected = joining(p.member_uuid, user, org, p.person, p.site);
    if p.person.active && p.site.mail_enabled {
        assert(played =~= expected);
    } else if p.person.active {
        assert(played =~= expected);
    } else {
        assert(played =~= expected);
    }
}

proof fn lemma_first_steps(
    db: Directory,
    person: NewUserView,
    gates: SignupGates,
    site: SiteView,
    user_uuid: Seq<char>,
    member_uuid: Seq<char>,
)
    requires
        person.external_id matches Some(id) ==> !(db.linked)(id),
    ensures
        ({
            let p = provisioning_of(person, gates, site, user_uuid, member_uuid);
            let found = (ProvisioningView { phase: ProvisionPhase::FindAccount, ..p }).resume(
                ProvisionReplyView::Account((db.account)(person.email)),
            );
            let played = play(db, p.begin(), false, 14);
            let left: nat = if person.external_id is Some {
                12
            } else {
                13
            };
            &&& played.0 == looking(person) + play(db, found, false, left).0
            &&& played.1 == play(db, found, false, left).1
        }),
{
    let p = provisioning_of(person, gates, site, user_uuid, member_uuid);
    let find = ProvisionCommandView::FindAccount(person.email);
    let finding = (
        ProvisioningView { phase: ProvisionPhase::FindAccount, ..p },
        ProvisionStepView::Ask(find),
    );
    let found = finding.0.resume(ProvisionReplyView::Account((db.account)(person.email)));
    match person.external_id {
        Some(id) => {
            let check = ProvisionCommandView::FindByExternalId(id);
            assert(p.begin().1 == ProvisionStepView::Ask(check));
            assert(p.begin().0.resume(ProvisionReplyView::Exists(false)) == finding);
            assert(play(db, finding, false, 13).0 == seq![find] + play(db, found, false, 12).0);
            assert(play(db, p.begin(), false, 14).0 =~= seq![check] + (seq![find] + play(
                db,
                found,
                false,
                12,
            ).0));
            assert(play(db, p.begin(), false, 14).0 =~= looking(person) + play(
                db,
                found,
                false,
                12,
            ).0);
        },
        None => {
            assert(p.begin() == finding);
            assert(play(db, p.begin(), false, 14).0 =~= looking(person) + play(
                db,
                found,
                false,
                13,
            ).0);
        },
    }
}

/// A person whose address has an account that is no member yet is linked to it: nothing is
/// created but the membership and, where the account has no credentials and no mail is sent,
/// an invitation to register with.
pub proof fn law_existing_accounts_are_linked(
    db: Directory,
    person: NewUserView,
    gates: SignupGates,
    site: SiteView,
    user_uuid: Seq<char>,
    member_uuid: Seq<char>,
    user: UserView,
    org: OrganizationView,
)
    requires
        person.external_id matches Some(id) ==> !(db.linked)(id),
        (db.account)(person.email) == Some(user),
        !(db.joined)(user.uuid),
        db.org == Some(org),
        db.saves_invitation,
        db.saves_member,
    ensures
        ({
            let (asked, end) = play(
                db,
                provisioning_of(person, gates, site, user_uuid, member_uuid).begin(),
                false,
                14,
            );
            &&& asked == looking(person) + seq![
                ProvisionCommandView::FindMembership(user.uuid),
                ProvisionCommandView::FindOrganization,
            ] + only_if(
                !site.mail_enabled && user.password_hash.len() == 0,
                ProvisionCommandView::SaveInvitation(user.email),
            ) + joining(member_uuid, user, org, person, site)
            &&& created(end, member_uuid, user, org, person, site)
        }),
{
    lemma_first_steps(db, person, gates, site, user_uuid, member_uuid);
    let p = provisioning_of(person, gates, site, user_uuid, member_uuid);
    let left: nat = if person.external_id is Some {
        12
    } else {
        13
    };
    let checking = (ProvisioningView { phase: ProvisionPhase::FindAccount, ..p }).resume(
        ProvisionReplyView::Account(Some(user)),
    );
    let locating = checking.0.resume(ProvisionReplyView::Exists(false));
    let located = locating.0.resume(ProvisionReplyView::Organization(Some(org)));
    let check = ProvisionCommandView::FindMembership(user.uuid);
    let locate = ProvisionCommandView::FindOrganization;
    let invite = ProvisionCommandView::SaveInvitation(user.email);
    let invited = !site.mail_enabled && user.password_hash.len() == 0;
    let last = joining(member_uuid, user, org, person, site);
    assert(checking.1 == ProvisionStepView::Ask(check));
    assert(locating.1 == ProvisionStepView::Ask(locate));
    let held = ProvisioningView { user: Some(user), org: Some(org), ..locating.0 };
    if invited {
        assert(located.1 == ProvisionStepView::Ask(invite));
        let ready = ProvisioningView { invitation_created: true, ..located.0 };
        assert(located.0.resume(ProvisionReplyView::Saved(true)) == ready.create_member());
        lemma_create_member(db, ready, user, org, false, (left - 3) as nat);
        assert(play(db, located, false, (left - 2) as nat).0 == seq![invite] + last);
    } else {
        assert(located == held.create_member());
        lemma_create_member(db, held, user, org, false, (left - 2) as nat);
    }
    assert(play(db, located, false, (left - 2) as nat).0 =~= only_if(invited, invite) + last);
    assert(play(db, locating, false, (left - 1) as nat).0 =~= seq![locate] + (only_if(
        invited,
        invite,
    ) + last));
    assert(play(db, checking, false, left).0 =~= seq![check, locate] + only_if(invited, invite)
        + last);
    assert(looking(person) + (seq![check, locate] + only_if(invited, invite) + last) =~= looking(
        person,
    ) + seq![check, locate] + only_if(invited, invite) + last);
}

/// A person whose address has no account gets one, where new accounts may be made; where no
/// mail is sent, an invitation to register with as well. Where a concurrent request was
/// faster, its account is linked instead.
pub proof fn law_new_persons_get_an_account(
    db: Directory,
    person: NewUserView,
    gates: SignupGates,
    site: SiteView,
    user_uuid: Seq<char>,
    member_uuid: Seq<char>,
    org: OrganizationView,
)
    requires
        person.external_id matches Some(id) ==> !(db.linked)(id),
        (db.account)(person.email) is None,
        db.org == Some(org),
        gates.invitations_allowed,
        gates.domain_allowed,
        db.saves_invitation,
        db.saves_member,
        db.saves_account || db.rival is Some,
    ensures
        ({
            let (asked, end) = play(
                db,
                provisioning_of(person, gates, site, user_uuid, member_uuid).begin(),
                false,
                14,
            );
            let made = fresh_account(person, user_uuid);
            let user = if db.saves_account {
                made
            } else {
                db.rival->Some_0
            };
            &&& asked == looking(person) + seq![
                ProvisionCommandView::FindOrganization,
                ProvisionCommandView::SaveAccount(made),
            ] + (if !db.saves_account {
                seq![ProvisionCommandView::FindAccount(person.email)]
            } else {
                only_if(!site.mail_enabled, ProvisionCommandView::SaveInvitation(made.email))
            }) + joining(member_uuid, user, org, person, site)
            &&& created(end, member_uuid, user, org, person, site)
        }),
{
    lemma_first_steps(db, person, gates, site, user_uuid, member_uuid);
    let p = provisioning_of(person, gates, site, user_uuid, member_uuid);
    let left: nat = if person.external_id is Some {
        12
    } else {
        13
    };
    let made = fresh_account(person, user_uuid);
    let locating = (ProvisioningView { phase: ProvisionPhase::FindAccount, ..p }).resume(
        ProvisionReplyView::Account(None),
    );
    let making = locating.0.resume(ProvisionReplyView::Organization(Some(org)));
    let made_it = making.0.resume(ProvisionReplyView::Saved(db.saves_account));
    let locate = ProvisionCommandView::FindOrganization;
    let make = ProvisionCommandView::SaveAccount(made);
    let invite = ProvisionCommandView::SaveInvitation(made.email);
    let find = ProvisionCommandView::FindAccount(person.email);
    assert(locating.1 == ProvisionStepView::Ask(locate));
    assert(making.1 == ProvisionStepView::Ask(make));
    let user = if db.saves_account {
        made
    } else {
        db.rival->Some_0
    };
    let last = joining(member_uuid, user, org, person, site);
    let middle = if !db.saves_account {
        seq![find]
    } else {
        only_if(!site.mail_enabled, invite)
    };
    if !db.saves_account {
        assert(made_it.1 == ProvisionStepView::Ask(find));
        let ready = ProvisioningView { user: Some(user), ..made_it.0 };
        assert(made_it.0.resume(ProvisionReplyView::Account(db.rival)) == ready.create_member());
        lemma_create_member(db, ready, user, org, true, (left - 3) as nat);
        assert(play(db, made_it, true, (left - 2) as nat).0 == seq![find] + last);
    } else if site.mail_enabled {
        let ready = ProvisioningView { user_created: true, ..making.0 };
        assert(made_it == ready.create_member());
        lemma_create_member(db, ready, user, org, false, (left - 2) as nat);
    } else {
        assert(made_it.1 == ProvisionStepView::Ask(invite));
        let ready = ProvisioningView { user_created: true, ..made_it.0 };
        assert(made_it.0.resume(ProvisionReplyView::Saved(true)) == ready.create_member());
        lemma_create_member(db, ready, user, org, false, (left - 3) as nat);
        assert(play(db, made_it, false, (left - 2) as nat).0 == seq![invite] + last);
    }
    assert(play(db, made_it, !db.saves_account, (left - 2) as nat).0 =~= middle + last);
    assert(play(db, making, false, (left - 1) as nat).0 =~= seq![make] + (middle + last));
    assert(play(db, locating, false, left).0 =~= seq![locate, make] + middle + last);
    assert(looking(person) + (seq![locate, make] + middle + last) =~= looking(person) + seq![
        locate,
        make,
    ] + middle + last);
}

/// Provisioning is refused where the externalId is taken, where the person is a member
/// already, and where a new account would be needed that may not be made; and it fails where
/// the organization is gone. Nothing is written then.
pub proof fn law_provisionings_are_refused(
    db: Directory,
    person: NewUserView,
    gates: SignupGates,
    site: SiteView,
    user_uuid: Seq<char>,
    member_uuid: Seq<char>,
)
    ensures
        ({
            let (asked, end) = play(
                db,
                provisioning_of(person, gates, site, user_uuid, member_uuid).begin(),
                false,
                14,
            );
            let taken = person.external_id is Some && (db.linked)(person.external_id->Some_0);
            let found = (db.account)(person.email);
            let member = found is Some && (db.joined)(found->Some_0.uuid);
            &&& taken ==> refusal(
                end,
                409,
                Some("uniqueness"@),
                "A member with this externalId already exists"@,
            ) && asked == seq![
                ProvisionCommandView::FindByExternalId(person.external_id->Some_0),
            ]
            &&& !taken && member ==> refusal(
                end,
                409,
                Some("uniqueness"@),
                "A member with this userName already exists"@,
            ) && asked == looking(person) + seq![
                ProvisionCommandView::FindMembership(found->Some_0.uuid),
            ]
            &&& !taken && !member && db.org is None ==> refusal(
                end,
                500,
                None,
                "Internal server error"@,
            ) && asked == looking(person) + only_if(
                found is Some,
                ProvisionCommandView::FindMembership(found->Some_0.uuid),
            ) + seq![ProvisionCommandView::FindOrganization]
            &&& !taken && found is None && db.org is Some && !gates.invitations_allowed ==> refusal(
                end,
                400,
                Some("invalidValue"@),
                "Creating new accounts is disabled on this server"@,
            ) && asked == looking(person) + seq![ProvisionCommandView::FindOrganization]
            &&& !taken && found is None && db.org is Some && gates.invitations_allowed
                && !gates.domain_allowed ==> refusal(
                end,
                400,
                Some("invalidValue"@),
                "Email domain is not eligible for invitations"@,
            ) && asked == looking(person) + seq![ProvisionCommandView::FindOrganization]
        }),
{
    let start = provisioning_of(person, gates, site, user_uuid, member_uuid).begin();
    let taken = person.external_id is Some && (db.linked)(person.external_id->Some_0);
    let found = (db.account)(person.email);
    if taken {
        reveal_with_fuel(play, 2);
        assert(play(db, start, false, 14).0 =~= seq![
            ProvisionCommandView::FindByExternalId(person.external_id->Some_0),
        ]);
    } else {
        lemma_first_steps(db, person, gates, site, user_uuid, member_uuid);
        reveal_with_fuel(play, 3);
        let p = provisioning_of(person, gates, site, user_uuid, member_uuid);
        let next = (ProvisioningView { phase: ProvisionPhase::FindAccount, ..p }).resume(
            ProvisionReplyView::Account(found),
        );
        let left: nat = if person.external_id is Some {
            12
        } else {
            13
        };
        let rest = play(db, next, false, left).0;
        match found {
            Some(user) => {
                let check = ProvisionCommandView::FindMembership(user.uuid);
                if (db.joined)(user.uuid) {
                    assert(rest =~= seq![check]);
                } else if db.org is None {
                    assert(rest =~= seq![check, ProvisionCommandView::FindOrganization]);
                    assert(looking(person) + rest =~= looking(person) + only_if(true, check)
                        + seq![ProvisionCommandView::FindOrganization]);
                }
            },
            None => {
                if db.org is None || !gates.invitations_allowed || !gates.domain_allowed {
                    assert(rest =~= seq![ProvisionCommandView::FindOrganization]);
                    assert(looking(person) + rest =~= looking(person) + only_if(
                        false,
                        ProvisionCommandView::FindMembership(found->Some_0.uuid),
                    ) + seq![ProvisionCommandView::FindOrganization]);
                }
            },
        }
    }
}

/// Where the membership cannot be written, a concurrent request that wrote it is to blame, and
/// its row stays. Otherwise the server is, and what this request wrote is taken back: the
/// account, where it is this request's alone, and else the membership and the invitation.
pub proof fn law_failed_memberships_are_taken_back(
    db: Directory,
    p: ProvisioningView,
    user: UserView,
    org: OrganizationView,
    failed: bool,
)
    requires
        p.user == Some(user),
        p.org == Some(org),
        !db.saves_member,
    ensures
        ({
            let (asked, end) = play(db, p.create_member(), failed, 6);
            let member = link(p.member_uuid, user, org, p.person, p.site);
            let ours = p.user_created && forall|i: int|
                0 <= i < db.memberships.len() ==> #[trigger] db.memberships[i] == p.member_uuid;
            if db.rival_joined {
                &&& asked == seq![
                    ProvisionCommandView::SaveMembership(member),
                    ProvisionCommandView::FindMembership(user.uuid),
                ]
                &&& refusal(
                    end,
                    409,
                    Some("uniqueness"@),
                    "A member with this userName already exists"@,
                )
            } else {
                &&& asked == seq![
                    ProvisionCommandView::SaveMembership(member),
                    ProvisionCommandView::FindMembership(user.uuid),
                    ProvisionCommandView::FindAllMemberships(user.uuid),
                ] + (if ours {
                    seq![ProvisionCommandView::DeleteAccount(user)]
                } else {
                    seq![ProvisionCommandView::DeleteMembership(member)] + only_if(
                        p.invitation_created,
                        ProvisionCommandView::TakeInvitation(user.email),
                    )
                })
                &&& refusal(end, 500, None, "Internal server error"@)
            }
        }),
{
    reveal_with_fuel(play, 7);
    lemma_link(p.member_uuid, user, org, p.person, p.site);
    let asked = play(db, p.create_member(), failed, 6).0;
    let member = link(p.member_uuid, user, org, p.person, p.site);
    let ours = p.user_created && forall|i: int|
        0 <= i < db.memberships.len() ==> #[trigger] db.memberships[i] == p.member_uuid;
    let save = ProvisionCommandView::SaveMembership(member);
    let check = ProvisionCommandView::FindMembership(user.uuid);
    let find = ProvisionCommandView::FindAllMemberships(user.uuid);
    if db.rival_joined {
        assert(asked =~= seq![save, check]);
    } else if ours {
        assert(asked =~= seq![save, check, find] + seq![ProvisionCommandView::DeleteAccount(user)]);
    } else if p.invitation_created {
        assert(asked =~= seq![save, check, find] + (seq![
            ProvisionCommandView::DeleteMembership(member),
        ] + seq![ProvisionCommandView::TakeInvitation(user.email)]));
    } else {
        assert(asked =~= seq![save, check, find] + (seq![
            ProvisionCommandView::DeleteMembership(member),
        ] + Seq::<ProvisionCommandView>::empty()));
    }
}

/// Where the account or its invitation cannot be written, the server is to blame. An account
/// that was just made for nothing is deleted again, unless somebody has joined it since.
pub proof fn law_failed_accounts_are_taken_back(
    db: Directory,
    person: NewUserView,
    gates: SignupGates,
    site: SiteView,
    user_uuid: Seq<char>,
    member_uuid: Seq<char>,
)
    requires
        person.external_id matches Some(id) ==> !(db.linked)(id),
        (db.account)(person.email) is None,
        db.org is Some,
        gates.invitations_allowed,
        gates.domain_allowed,
        if db.saves_account {
            !site.mail_enabled && !db.saves_invitation
        } else {
            db.rival is None
        },
    ensures
        ({
            let (asked, end) = play(
                db,
                provisioning_of(person, gates, site, user_uuid, member_uuid).begin(),
                false,
                14,
            );
            let made = fresh_account(person, user_uuid);
            &&& refusal(end, 500, None, "Internal server error"@)
            &&& asked == looking(person) + (seq![
                ProvisionCommandView::FindOrganization,
                ProvisionCommandView::SaveAccount(made),
            ] + (if !db.saves_account {
                seq![ProvisionCommandView::FindAccount(person.email)]
            } else {
                seq![
                    ProvisionCommandView::SaveInvitation(made.email),
                    ProvisionCommandView::FindAllMemberships(user_uuid),
                ] + only_if(
                    db.memberships.len() == 0,
                    ProvisionCommandView::DeleteAccount(made),
                )
            }))
        }),
{
    lemma_first_steps(db, person, gates, site, user_uuid, member_uuid);
    reveal_with_fuel(play, 6);
    let p = provisioning_of(person, gates, site, user_uuid, member_uuid);
    let next = (ProvisioningView { phase: ProvisionPhase::FindAccount, ..p }).resume(
        ProvisionReplyView::Account(None),
    );
    let left: nat = if person.external_id is Some {
        12
    } else {
        13
    };
    let rest = play(db, next, false, left).0;
    let made = fresh_account(person, user_uuid);
    let head = seq![ProvisionCommandView::FindOrganization, ProvisionCommandView::SaveAccount(made)];
    if !db.saves_account {
        assert(rest =~= head + seq![ProvisionCommandView::FindAccount(person.email)]);
    } else if db.memberships.len() == 0 {
        assert(rest =~= head + (seq![
            ProvisionCommandView::SaveInvitation(made.email),
            ProvisionCommandView::FindAllMemberships(user_uuid),
        ] + seq![ProvisionCommandView::DeleteAccount(made)]));
    } else {
        assert(rest =~= head + (seq![
            ProvisionCommandView::SaveInvitation(made.email),
            ProvisionCommandView::FindAllMemberships(user_uuid),
        ] + Seq::<ProvisionCommandView>::empty()));
    }
}

/// Where the invitation of an account that exists cannot be written, provisioning fails, and
/// the membership is not tried.
pub proof fn law_failed_invitations_end_provisioning(
    db: Directory,
    person: NewUserView,
    gates: SignupGates,
    site: SiteView,
    user_uuid: Seq<char>,
    member_uuid: Seq<char>,
    user: UserView,
)
    requires
        person.external_id matches Some(id) ==> !(db.linked)(id),
        (db.account)(person.email) == Some(user),
        !(db.joined)(user.uuid),
        db.org is Some,
        !site.mail_enabled,
        user.password_hash.len() == 0,
        !db.saves_invitation,
    ensures
        ({
            let (asked, end) = play(
                db,
                provisioning_of(person, gates, site, user_uuid, member_uuid).begin(),
                false,
                14,
            );
            &&& refusal(end, 500, None, "Internal server error"@)
            &&& asked == looking(person) + seq![
                ProvisionCommandView::FindMembership(user.uuid),
                ProvisionCommandView::FindOrganization,
                ProvisionCommandView::SaveInvitation(user.email),
            ]
        }),
{
    lemma_first_steps(db, person, gates, site, user_uuid, member_uuid);
    reveal_with_fuel(play, 5);
    let p = provisioning_of(person, gates, site, user_uuid, member_uuid);
    let next = (ProvisioningView { phase: ProvisionPhase::FindAccount, ..p }).resume(
        ProvisionReplyView::Account(Some(user)),
    );
    let left: nat = if person.external_id is Some {
        12
    } else {
        13
    };
    assert(play(db, next, false, left).0 =~= seq![
        ProvisionCommandView::FindMembership(user.uuid),
        ProvisionCommandView::FindOrganization,
        ProvisionCommandView::SaveInvitation(user.email),
    ]);
}

/// A request is one for a person exactly where it has a valid address, and nothing in it is
/// too long; the person is then the one it describes, active unless it says otherwise.
pub proof fn law_persons_are_as_described(
    email: Option<Seq<char>>,
    display_name: Option<Seq<char>>,
    external_id: Option<Seq<char>>,
    active: Option<bool>,
    email_valid: bool,
)
    ensures
        ({
            let person = new_user(email, display_name, external_id, active, email_valid);
            let long_address = email is Some && email->Some_0.len() > 255;
            let long_name = display_name is Some && display_name->Some_0.len() > 255;
            let long_id = external_id is Some && external_id->Some_0.len() > 300;
            let limit = |name: Seq<char>, max: nat|
                name + " must be at most "@ + decimal_text(max) + " characters"@;
            &&& person is Ok <==> email is Some && email_valid && !long_address && !long_name
                && !long_id
            &&& person matches Ok(someone) ==> Some(someone.email) == email && someone.display_name
                == display_name && someone.external_id == external_id && someone.active == (active
                != Some(false))
            &&& email is None ==> crate::patch_meaning::refused(
                person,
                "invalidValue"@,
                "userName (or a primary email) must be an email address"@,
            )
            &&& email is Some && !email_valid ==> crate::patch_meaning::refused(
                person,
                "invalidValue"@,
                "userName is not a valid email address"@,
            )
            &&& email is Some && email_valid && long_address ==> crate::patch_meaning::refused(
                person,
                "invalidValue"@,
                limit("userName"@, 255),
            )
            &&& email is Some && email_valid && !long_address && long_name
                ==> crate::patch_meaning::refused(
                person,
                "invalidValue"@,
                limit("displayName"@, 255),
            )
            &&& email is Some && email_valid && !long_address && !long_name && long_id
                ==> crate::patch_meaning::refused(
                person,
                "invalidValue"@,
                limit("externalId"@, 300),
            )
        }),
{
}

/// Whether a reply is one to a command.
pub open spec fn answers(command: ProvisionCommandView, reply: ProvisionReplyView) -> bool {
    match command {
        ProvisionCommandView::FindByExternalId(_) => reply is Exists,
        ProvisionCommandView::FindAccount(_) => reply is Account,
        ProvisionCommandView::FindMembership(_) => reply is Exists,
        ProvisionCommandView::FindOrganization => reply is Organization,
        ProvisionCommandView::SaveInvitation(_) => reply is Saved,
        ProvisionCommandView::SaveAccount(_) => reply is Saved,
        ProvisionCommandView::SaveMembership(_) => reply is Saved,
        ProvisionCommandView::FindAllMemberships(_) => reply is Memberships,
        ProvisionCommandView::SendInvite(_, _, _) => reply is Noted,
        ProvisionCommandView::Log(_, _) => reply is Noted,
        _ => true,
    }
}

spec fn waits_for_answer(state: (ProvisioningView, ProvisionStepView)) -> bool {
    state.1 matches ProvisionStepView::Ask(command) ==> (match state.0.phase {
        ProvisionPhase::CheckExternalId => command is FindByExternalId,
        ProvisionPhase::FindAccount => command is FindAccount,
        ProvisionPhase::CheckMembership => command is FindMembership,
        ProvisionPhase::FindOrganization => command is FindOrganization,
        ProvisionPhase::InviteExisting => command is SaveInvitation,
        ProvisionPhase::SaveAccount => command is SaveAccount,
        ProvisionPhase::FindRaced => command is FindAccount,
        ProvisionPhase::InviteNew => command is SaveInvitation,
        ProvisionPhase::CheckOrphan => command is FindAllMemberships,
        ProvisionPhase::DropOrphan => command is DeleteAccount,
        ProvisionPhase::SaveMembership => command is SaveMembership,
        ProvisionPhase::RecheckMembership => command is FindMembership,
        ProvisionPhase::Rollback => command is FindAllMemberships,
        ProvisionPhase::RollbackAccount => command is DeleteAccount,
        ProvisionPhase::RollbackMembership => command is DeleteMembership,
        ProvisionPhase::RollbackInvitation => command is TakeInvitation,
        ProvisionPhase::SendInvite => command is SendInvite,
        ProvisionPhase::LogInvited => command is Log,
        ProvisionPhase::LogRevoked => command is Log,
        ProvisionPhase::Finished => false,
    })
}

proof fn lemma_waits_for_answer(
    start: (ProvisioningView, ProvisionStepView),
    replies: Seq<ProvisionReplyView>,
)
    requires
        waits_for_answer(start),
    ensures
        waits_for_answer(run(start, replies)),
    decreases replies.len(),
{
    if replies.len() > 0 {
        lemma_waits_for_answer(start, replies.drop_last());
    }
}

/// A reply that does not answer what was asked ends a provisioning with an internal error.
pub proof fn law_other_replies_end_a_provisioning(
    person: NewUserView,
    gates: SignupGates,
    site: SiteView,
    user_uuid: Seq<char>,
    member_uuid: Seq<char>,
    replies: Seq<ProvisionReplyView>,
    command: ProvisionCommandView,
    reply: ProvisionReplyView,
)
    requires
        run(provisioning_of(person, gates, site, user_uuid, member_uuid).begin(), replies).1
            == ProvisionStepView::Ask(command),
        !answers(command, reply),
    ensures
        run(
            provisioning_of(person, gates, site, user_uuid, member_uuid).begin(),
            replies,
        ).0.resume(reply).1 matches ProvisionStepView::Done(result) && refusal(
            Some(result),
            500,
            None,
            "Internal server error"@,
        ),
{
    lemma_waits_for_answer(
        provisioning_of(person, gates, site, user_uuid, member_uuid).begin(),
        replies,
    );
}

} // verus!
