//! What holds of every provisioning, whatever the database replies.

use vstd::prelude::*;

use crate::account::UserView;
use crate::error::ScimErrorView;
use crate::membership::{status_code, type_code, MembershipStatus, MembershipType, MembershipView};
use crate::provisioning::{
    new_user, provisioning_of, NewUserView, ProvisionCommandView, ProvisionReplyView,
    ProvisionStepView, ProvisioningView, SignupGates,
};
use crate::scim::{location_url, ScimResponseView};
use crate::users::{scim_user, SiteView};

verus! {

/// Where provisioning stands after a list of replies. Replies after the answer are
/// not looked at.
pub open spec fn run(
    start: (ProvisioningView, ProvisionStepView),
    replies: Seq<ProvisionReplyView>,
) -> (ProvisioningView, ProvisionStepView)
    decreases replies.len(),
{
    if replies.len() == 0 {
        start
    } else {
        let before = run(start, replies.drop_last());
        if before.1 is Done {
            before
        } else {
            before.0.resume(replies.last())
        }
    }
}

/// Whether a step asks to write or delete a row.
pub open spec fn is_write(step: ProvisionStepView) -> bool {
    step matches ProvisionStepView::Ask(command) && (command is SaveInvitation
        || command is TakeInvitation || command is SaveAccount || command is DeleteAccount
        || command is SaveMembership || command is DeleteMembership)
}

/// Whether a row was to be written or deleted on the way.
pub open spec fn wrote(
    start: (ProvisioningView, ProvisionStepView),
    replies: Seq<ProvisionReplyView>,
) -> bool
    decreases replies.len(),
{
    if replies.len() == 0 {
        is_write(start.1)
    } else {
        wrote(start, replies.drop_last()) || is_write(run(start, replies).1)
    }
}

/// SCIM creates ordinary members only: never an administrator, never with access to
/// everything, never with a key, and never beyond Accepted, which in turn takes an
/// account with credentials on a server that sends no mail.
pub proof fn law_provisioned_members_are_ordinary(
    provisioning: ProvisioningView,
    reply: ProvisionReplyView,
    saved: MembershipView,
)
    requires
        provisioning.resume(reply).1 == ProvisionStepView::Ask(
            ProvisionCommandView::SaveMembership(saved),
        ),
    ensures
        saved.atype == type_code(MembershipType::User),
        !saved.access_all,
        saved.akey.len() == 0,
        saved.org_uuid == provisioning.site.org_uuid,
        saved.active() == provisioning.person.active,
        saved.restored().status == status_code(MembershipStatus::Invited)
            || saved.restored().status == status_code(MembershipStatus::Accepted),
        saved.restored().status == status_code(MembershipStatus::Accepted) ==> {
            &&& !provisioning.site.mail_enabled
            &&& provisioning.resume(reply).0.user matches Some(user) && user.registered()
        },
{
}

/// An account is created only where the server's signup gates are open.
pub proof fn law_signup_gates_hold(
    provisioning: ProvisioningView,
    reply: ProvisionReplyView,
    user: UserView,
)
    requires
        provisioning.resume(reply).1 == ProvisionStepView::Ask(
            ProvisionCommandView::SaveAccount(user),
        ),
    ensures
        provisioning.gates.invitations_allowed,
        provisioning.gates.domain_allowed,
        !user.registered(),
        user.uuid == provisioning.user_uuid,
{
}

/// A person who is created deactivated is not sent an invitation.
pub proof fn law_deactivated_persons_are_not_invited(
    provisioning: ProvisioningView,
    reply: ProvisionReplyView,
)
    requires
        provisioning.resume(reply).1 matches ProvisionStepView::Ask(command)
            && command is SendInvite,
    ensures
        provisioning.person.active,
        provisioning.site.mail_enabled,
{
}

/// An invitation is taken back only where this request wrote it for an account that
/// already existed.
pub proof fn law_only_own_invitations_are_taken_back(
    provisioning: ProvisioningView,
    reply: ProvisionReplyView,
)
    requires
        provisioning.resume(reply).1 matches ProvisionStepView::Ask(command)
            && command is TakeInvitation,
    ensures
        provisioning.invitation_created,
        provisioning.phase is RollbackMembership,
{
}

// The rows that provisioning holds are its own where it takes them for its own.
spec fn honest(
    provisioning: ProvisioningView,
    person: NewUserView,
    site: SiteView,
    user_uuid: Seq<char>,
    member_uuid: Seq<char>,
) -> bool {
    let phase = provisioning.phase;
    &&& provisioning.person == person
    &&& provisioning.site == site
    &&& provisioning.user_uuid == user_uuid
    &&& provisioning.member_uuid == member_uuid
    &&& provisioning.user_created ==> (provisioning.user matches Some(user) && user.uuid
        == user_uuid)
    &&& phase is SaveAccount || phase is InviteNew || phase is CheckOrphan || phase is DropOrphan
        ==> (provisioning.user matches Some(user) && user.uuid == user_uuid)
    &&& phase is FindRaced ==> !provisioning.user_created
    &&& phase is SaveAccount || phase is InviteNew || phase is CheckExternalId
        || phase is FindAccount || phase is CheckMembership || phase is FindOrganization
        || phase is InviteExisting ==> !provisioning.user_created
    &&& provisioning.member matches Some(member) ==> member.uuid == member_uuid && member.active()
        == person.active
}

proof fn lemma_honest(
    person: NewUserView,
    gates: SignupGates,
    site: SiteView,
    user_uuid: Seq<char>,
    member_uuid: Seq<char>,
    replies: Seq<ProvisionReplyView>,
)
    ensures
        honest(
            run(provisioning_of(person, gates, site, user_uuid, member_uuid).begin(), replies).0,
            person,
            site,
            user_uuid,
            member_uuid,
        ),
    decreases replies.len(),
{
    if replies.len() > 0 {
        lemma_honest(person, gates, site, user_uuid, member_uuid, replies.drop_last());
    }
}

/// Taking a provisioning back never destroys anything of others: the account that is
/// deleted is the one that this request created, and it is deleted only when it was
/// just found to have no membership but the one being taken back.
pub proof fn law_only_own_accounts_are_deleted(
    person: NewUserView,
    gates: SignupGates,
    site: SiteView,
    user_uuid: Seq<char>,
    member_uuid: Seq<char>,
    replies: Seq<ProvisionReplyView>,
    deleted: UserView,
)
    requires
        replies.len() > 0,
        run(
            provisioning_of(person, gates, site, user_uuid, member_uuid).begin(),
            replies.drop_last(),
        ).1 is Ask,
        run(provisioning_of(person, gates, site, user_uuid, member_uuid).begin(), replies).1
            == ProvisionStepView::Ask(ProvisionCommandView::DeleteAccount(deleted)),
    ensures
        deleted.uuid == user_uuid,
        replies.last() matches ProvisionReplyView::Memberships(ids) && forall|i: int|
            0 <= i < ids.len() ==> #[trigger] ids[i] == member_uuid,
{
    lemma_honest(person, gates, site, user_uuid, member_uuid, replies.drop_last());
}

/// A provisioning that succeeds answers 201 with the location of the new member, who
/// is as active as was asked for.
pub proof fn law_provisioned_members_are_answered(
    person: NewUserView,
    gates: SignupGates,
    site: SiteView,
    user_uuid: Seq<char>,
    member_uuid: Seq<char>,
    replies: Seq<ProvisionReplyView>,
    response: ScimResponseView,
)
    requires
        run(provisioning_of(person, gates, site, user_uuid, member_uuid).begin(), replies).1
            == ProvisionStepView::Done(Ok(response)),
    ensures
        response.status == 201,
        response.location == Some(
            location_url(site.domain, site.org_uuid, "Users"@, member_uuid),
        ),
        exists|member: MembershipView, user: UserView|
            {
                &&& response.body == Some(#[trigger] scim_user(member, user, site))
                &&& member.uuid == member_uuid
                &&& member.active() == person.active
            },
    decreases replies.len(),
{
    let start = provisioning_of(person, gates, site, user_uuid, member_uuid).begin();
    if replies.len() > 0 {
        let before = run(start, replies.drop_last());
        lemma_honest(person, gates, site, user_uuid, member_uuid, replies.drop_last());
        if before.1 is Done {
            law_provisioned_members_are_answered(
                person,
                gates,
                site,
                user_uuid,
                member_uuid,
                replies.drop_last(),
                response,
            );
        } else {
            let member = before.0.member->Some_0;
            let user = before.0.user->Some_0;
            assert(response.body == Some(scim_user(member, user, site)));
        }
    }
}

/// Replies of a database whose writes succeed.
pub open spec fn writable(replies: Seq<ProvisionReplyView>) -> bool {
    forall|i: int|
        0 <= i < replies.len() ==> (#[trigger] replies[i] matches ProvisionReplyView::Saved(saved)
            ==> saved)
}

spec fn careful(state: (ProvisioningView, ProvisionStepView), wrote: bool) -> bool {
    let phase = state.0.phase;
    &&& phase is CheckExternalId || phase is FindAccount || phase is CheckMembership
        || phase is FindOrganization ==> !wrote
    &&& !(phase is FindRaced || phase is RecheckMembership || phase is CheckOrphan)
    &&& state.1 matches ProvisionStepView::Done(Err(e)) ==> e.status == 500 || !wrote
}

proof fn lemma_careful(
    start: (ProvisioningView, ProvisionStepView),
    provisioning: ProvisioningView,
    replies: Seq<ProvisionReplyView>,
)
    requires
        start == provisioning.begin(),
        writable(replies),
    ensures
        careful(run(start, replies), wrote(start, replies)),
    decreases replies.len(),
{
    if replies.len() > 0 {
        let earlier = replies.drop_last();
        assert forall|i: int| 0 <= i < earlier.len() implies #[trigger] earlier[i]
            == replies[i] by {}
        lemma_careful(start, provisioning, earlier);
        assert(replies.last() == replies[replies.len() - 1]);
    }
}

/// A provisioning that is refused writes nothing, as long as the database's writes
/// succeed: what can be refused is refused before the first row is written.
pub proof fn law_refused_provisionings_write_nothing(
    provisioning: ProvisioningView,
    replies: Seq<ProvisionReplyView>,
    e: ScimErrorView,
)
    requires
        writable(replies),
        run(provisioning.begin(), replies).1 == ProvisionStepView::Done(Err(e)),
        e.status != 500,
    ensures
        !wrote(provisioning.begin(), replies),
{
    lemma_careful(provisioning.begin(), provisioning, replies);
}

/// The rows that a provisioning has written and not deleted again: accounts, the addresses of
/// invitations, and memberships.
#[verifier::ext_equal]
pub ghost struct LeftBehind {
    pub accounts: Set<UserView>,
    pub invitations: Set<Seq<char>>,
    pub members: Set<MembershipView>,
}

impl LeftBehind {
    /// Nothing at all.
    pub open spec fn nothing() -> Self {
        LeftBehind {
            accounts: Set::empty(),
            invitations: Set::empty(),
            members: Set::empty(),
        }
    }

    /// What is left once a command was answered. Deleting an account takes its invitation and
    /// its memberships with it.
    pub open spec fn after(self, command: ProvisionCommandView, reply: ProvisionReplyView) -> Self {
        let done = reply == ProvisionReplyView::Saved(true);
        match command {
            ProvisionCommandView::SaveAccount(user) => if done {
                LeftBehind { accounts: self.accounts.insert(user), ..self }
            } else {
                self
            },
            ProvisionCommandView::SaveInvitation(email) => if done {
                LeftBehind { invitations: self.invitations.insert(email), ..self }
            } else {
                self
            },
            ProvisionCommandView::SaveMembership(member) => if done {
                LeftBehind { members: self.members.insert(member), ..self }
            } else {
                self
            },
            ProvisionCommandView::DeleteAccount(user) => if done {
                LeftBehind {
                    accounts: self.accounts.remove(user),
                    invitations: self.invitations.remove(user.email),
                    members: self.members.filter(
                        |member: MembershipView| member.user_uuid != user.uuid,
                    ),
                }
            } else {
                self
            },
            ProvisionCommandView::DeleteMembership(member) => if done {
                LeftBehind { members: self.members.remove(member), ..self }
            } else {
                self
            },
            ProvisionCommandView::TakeInvitation(email) => LeftBehind {
                invitations: self.invitations.remove(email),
                ..self
            },
            _ => self,
        }
    }
}

/// What a provisioning has left behind after a list of replies.
pub open spec fn left_behind(
    start: (ProvisioningView, ProvisionStepView),
    replies: Seq<ProvisionReplyView>,
) -> LeftBehind
    decreases replies.len(),
{
    if replies.len() == 0 {
        LeftBehind::nothing()
    } else {
        let earlier = left_behind(start, replies.drop_last());
        match run(start, replies.drop_last()).1 {
            ProvisionStepView::Ask(command) => earlier.after(command, replies.last()),
            ProvisionStepView::Done(_) => earlier,
        }
    }
}

/// Whether a reply answers what was asked, and lets the provisioning be taken back: a write
/// may fail, but a deletion succeeds; nobody else has attached a membership to the account;
/// and once the membership has been tried, no concurrent request turns out to have written it.
pub open spec fn reversible(
    state: (ProvisioningView, ProvisionStepView),
    reply: ProvisionReplyView,
) -> bool {
    let tried = state.0.member is Some;
    match state.1 {
        ProvisionStepView::Done(_) => true,
        ProvisionStepView::Ask(command) => match command {
            ProvisionCommandView::FindByExternalId(_) => reply is Exists,
            ProvisionCommandView::FindAccount(_) => reply is Account,
            ProvisionCommandView::FindMembership(_) => reply matches ProvisionReplyView::Exists(
                found,
            ) && (tried ==> !found),
            ProvisionCommandView::FindOrganization => reply is Organization,
            ProvisionCommandView::SaveInvitation(_) => reply is Saved,
            ProvisionCommandView::SaveAccount(_) => reply is Saved,
            ProvisionCommandView::SaveMembership(_) => reply is Saved,
            ProvisionCommandView::DeleteAccount(_) => reply == ProvisionReplyView::Saved(true),
            ProvisionCommandView::DeleteMembership(_) => reply == ProvisionReplyView::Saved(true),
            ProvisionCommandView::FindAllMemberships(_) => only_own(
                reply,
                state.0.member_uuid,
                tried,
            ),
            _ => reply is Noted,
        },
    }
}

/// Whether an account was found without memberships, but for the one that was tried.
pub open spec fn only_own(reply: ProvisionReplyView, member_uuid: Seq<char>, tried: bool) -> bool {
    reply matches ProvisionReplyView::Memberships(ids) && (if tried {
        forall|i: int| 0 <= i < ids.len() ==> #[trigger] ids[i] == member_uuid
    } else {
        ids.len() == 0
    })
}

/// Whether every one of a list of replies is reversible.
pub open spec fn all_reversible(
    start: (ProvisioningView, ProvisionStepView),
    replies: Seq<ProvisionReplyView>,
) -> bool
    decreases replies.len(),
{
    replies.len() > 0 ==> all_reversible(start, replies.drop_last()) && reversible(
        run(start, replies.drop_last()),
        replies.last(),
    )
}

// What is left behind, at most, where provisioning stands, and what it is about to do.
spec fn accounted_for(
    state: (ProvisioningView, ProvisionStepView),
    left: LeftBehind,
    member_uuid: Seq<char>,
) -> bool {
    let p = state.0;
    let phase = p.phase;
    let searching = phase is CheckExternalId || phase is FindAccount || phase is CheckMembership
        || phase is FindOrganization;
    let creating = phase is InviteExisting || phase is SaveAccount || phase is FindRaced;
    let fresh_account = phase is InviteNew || phase is CheckOrphan || phase is DropOrphan;
    let joining = phase is SaveMembership || phase is RecheckMembership || phase is Rollback;
    let ending = phase is RollbackAccount || phase is RollbackMembership
        || phase is RollbackInvitation;
    let closing = phase is SendInvite || phase is LogInvited || phase is LogRevoked;
    let owned = if p.user_created {
        left.accounts == set![p.user->Some_0]
    } else {
        left.accounts == Set::<UserView>::empty()
    };
    let invited = left.invitations.subset_of(set![p.user->Some_0.email]) && (!p.user_created
        && !p.invitation_created ==> left.invitations == Set::<Seq<char>>::empty());
    &&& p.member_uuid == member_uuid
    &&& state.1 is Done <==> phase is Finished
    &&& p.member matches Some(member) ==> member.uuid == member_uuid
    &&& searching || creating || fresh_account ==> p.member is None && !p.user_created
        && !p.invitation_created
    &&& searching || creating ==> left == LeftBehind::nothing()
    &&& searching ==> (state.1 matches ProvisionStepView::Ask(c)
        && !is_write(state.1) && !(c is FindAllMemberships))
    &&& phase is CheckMembership ==> p.user is Some
    &&& creating || fresh_account || joining || ending || closing ==> p.user is Some && p.org is Some
    &&& joining || ending || closing ==> p.member is Some
    &&& fresh_account ==> left == (LeftBehind {
        accounts: set![p.user->Some_0],
        ..LeftBehind::nothing()
    })
    &&& joining || ending ==> left.members == Set::<MembershipView>::empty()
    &&& joining ==> owned && invited
    &&& p.user_created ==> !p.invitation_created
    &&& phase is InviteExisting || phase is InviteNew ==> state.1 == ProvisionStepView::Ask(
        ProvisionCommandView::SaveInvitation(p.user->Some_0.email),
    )
    &&& phase is SaveAccount ==> state.1 == ProvisionStepView::Ask(
        ProvisionCommandView::SaveAccount(p.user->Some_0),
    )
    &&& phase is FindRaced ==> (state.1 matches ProvisionStepView::Ask(c) && c is FindAccount)
    &&& phase is CheckOrphan || phase is Rollback ==> state.1 == ProvisionStepView::Ask(
        ProvisionCommandView::FindAllMemberships(p.user->Some_0.uuid),
    )
    &&& phase is DropOrphan || phase is RollbackAccount ==> state.1 == ProvisionStepView::Ask(
        ProvisionCommandView::DeleteAccount(p.user->Some_0),
    )
    &&& phase is SaveMembership ==> state.1 == ProvisionStepView::Ask(
        ProvisionCommandView::SaveMembership(p.member->Some_0),
    )
    &&& phase is RecheckMembership ==> (state.1 matches ProvisionStepView::Ask(c)
        && c is FindMembership)
    &&& phase is RollbackAccount ==> p.user_created && owned && invited
    &&& phase is RollbackMembership ==> !p.user_created && owned && invited && state.1
        == ProvisionStepView::Ask(ProvisionCommandView::DeleteMembership(p.member->Some_0))
    &&& phase is RollbackInvitation ==> !p.user_created && owned && invited && state.1
        == ProvisionStepView::Ask(ProvisionCommandView::TakeInvitation(p.user->Some_0.email))
    &&& phase is SendInvite ==> (state.1 matches ProvisionStepView::Ask(c) && c is SendInvite)
    &&& phase is LogInvited || phase is LogRevoked ==> (state.1 matches ProvisionStepView::Ask(c)
        && c is Log)
    &&& state.1 matches ProvisionStepView::Done(Err(_)) ==> left == LeftBehind::nothing()
}

proof fn lemma_accounted_for(
    person: NewUserView,
    gates: SignupGates,
    site: SiteView,
    user_uuid: Seq<char>,
    member_uuid: Seq<char>,
    replies: Seq<ProvisionReplyView>,
)
    requires
        all_reversible(
            provisioning_of(person, gates, site, user_uuid, member_uuid).begin(),
            replies,
        ),
    ensures
        ({
            let start = provisioning_of(person, gates, site, user_uuid, member_uuid).begin();
            accounted_for(run(start, replies), left_behind(start, replies), member_uuid)
        }),
    decreases replies.len(),
{
    let start = provisioning_of(person, gates, site, user_uuid, member_uuid).begin();
    if replies.len() > 0 {
        let earlier = replies.drop_last();
        lemma_accounted_for(person, gates, site, user_uuid, member_uuid, earlier);
        lemma_step_accounted_for(
            run(start, earlier),
            left_behind(start, earlier),
            member_uuid,
            replies.last(),
        );
    }
}

proof fn lemma_step_accounted_for(
    before: (ProvisioningView, ProvisionStepView),
    left: LeftBehind,
    member_uuid: Seq<char>,
    reply: ProvisionReplyView,
)
    requires
        accounted_for(before, left, member_uuid),
        reversible(before, reply),
    ensures
        before.1 matches ProvisionStepView::Ask(command) ==> accounted_for(
            before.0.resume(reply),
            left.after(command, reply),
            member_uuid,
        ),
{
    if let ProvisionStepView::Ask(command) = before.1 {
        let next = left.after(command, reply);
        let user = before.0.user->Some_0;
        assert(next.members =~= Set::empty() || next.members =~= left.members
            || command is SaveMembership);
        assert(command is DeleteAccount ==> next.accounts =~= Set::empty());
        assert(command is DeleteAccount || command is TakeInvitation ==> next.invitations
            =~= Set::empty());
        assert(command is SaveAccount && reply == ProvisionReplyView::Saved(true)
            ==> next.accounts =~= set![user]);
    }
}

/// A provisioning that fails leaves nothing of its own behind: where its writes can be taken
/// back, every account, every invitation and every membership that it wrote is deleted by the
/// time it ends with an error, whichever write failed.
pub proof fn law_failed_provisionings_leave_nothing_behind(
    person: NewUserView,
    gates: SignupGates,
    site: SiteView,
    user_uuid: Seq<char>,
    member_uuid: Seq<char>,
    replies: Seq<ProvisionReplyView>,
    e: ScimErrorView,
)
    requires
        all_reversible(
            provisioning_of(person, gates, site, user_uuid, member_uuid).begin(),
            replies,
        ),
        run(provisioning_of(person, gates, site, user_uuid, member_uuid).begin(), replies).1
            == ProvisionStepView::Done(Err(e)),
    ensures
        left_behind(provisioning_of(person, gates, site, user_uuid, member_uuid).begin(), replies)
            == LeftBehind::nothing(),
{
    lemma_accounted_for(person, gates, site, user_uuid, member_uuid, replies);
}

/// Whatever a provisioning is refused for, the answer is one that RFC 7644 knows.
pub proof fn law_refusals_of_provisionings_are_well_typed(
    provisioning: ProvisioningView,
    reply: ProvisionReplyView,
    email: Option<Seq<char>>,
    display_name: Option<Seq<char>>,
    external_id: Option<Seq<char>>,
    active: Option<bool>,
    email_valid: bool,
)
    ensures
        provisioning.resume(reply).1 matches ProvisionStepView::Done(Err(e)) ==> e.well_typed(),
        new_user(email, display_name, external_id, active, email_valid) matches Err(e)
            ==> e.well_typed(),
{
}

} // verus!
