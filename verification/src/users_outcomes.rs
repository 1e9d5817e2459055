//! What comes of a change of a member, from its first question to its answer.

use vstd::prelude::*;

use crate::account::{EventType, UserView};
use crate::error::ScimErrorView;
use crate::membership::MembershipView;
use crate::models::ScimUserRequest;
use crate::patch::UserPatchView;
use crate::scim::ScimResponseView;
use crate::text::decimal_text;
use crate::users::{
    deletion_of, replacement, scim_user, update_of, ChangePhase, SiteView, UserChangeView,
    UserCommandView, UserReplyView, UserStepView,
};
use crate::users_laws::{run, started};

verus! {

/// A database, as a change of a member meets it.
pub ghost struct Members {
    /// The member that has an externalId, before anything was tried.
    pub holder: spec_fn(Seq<char>) -> Option<Seq<char>>,
    /// The member that has an externalId, once a write has failed.
    pub rival: spec_fn(Seq<char>) -> Option<Seq<char>>,
    /// How many active owners the organization has.
    pub owners: int,
    /// Whether the policies allow a member.
    pub allows: spec_fn(MembershipView) -> bool,
    /// Whether a member can be written.
    pub saves: spec_fn(MembershipView) -> bool,
    /// The account with an id.
    pub account: spec_fn(Seq<char>) -> Option<UserView>,
}

impl Members {
    /// What the database replies to a command.
    pub open spec fn reply(self, command: UserCommandView, failed: bool) -> UserReplyView {
        match command {
            UserCommandView::FindByExternalId(id) => UserReplyView::Found(
                if failed {
                    (self.rival)(id)
                } else {
                    (self.holder)(id)
                },
            ),
            UserCommandView::CountActiveOwners { .. } => UserReplyView::Owners(self.owners),
            UserCommandView::CheckPolicy(member) => UserReplyView::Allowed((self.allows)(member)),
            UserCommandView::Save(member) => UserReplyView::Saved((self.saves)(member)),
            UserCommandView::SendInvite(_) => UserReplyView::Noted,
            UserCommandView::Log(_, _) => UserReplyView::Noted,
            UserCommandView::FindUser(id) => UserReplyView::Account((self.account)(id)),
        }
    }

    /// Whether a command is a write that fails.
    pub open spec fn fails(self, command: UserCommandView) -> bool {
        command matches UserCommandView::Save(member) && !(self.saves)(member)
    }
}

/// What a change asks for, and how it ends: so many commands of it.
pub open spec fn play(
    db: Members,
    state: (UserChangeView, UserStepView),
    failed: bool,
    commands: nat,
) -> (Seq<UserCommandView>, Option<Result<ScimResponseView, ScimErrorView>>)
    decreases commands,
{
    match state.1 {
        UserStepView::Done(answer) => (Seq::empty(), Some(answer)),
        UserStepView::Ask(command) => if commands == 0 {
            (Seq::empty(), None)
        } else {
            let rest = play(
                db,
                state.0.resume(db.reply(command, failed)),
                failed || db.fails(command),
                (commands - 1) as nat,
            );
            (seq![command] + rest.0, rest.1)
        },
    }
}

/// Whether a change ends with a refusal.
pub open spec fn refusal(
    end: Option<Result<ScimResponseView, ScimErrorView>>,
    status: int,
    scim_type: Option<Seq<char>>,
    detail: Seq<char>,
) -> bool {
    end matches Some(Err(e)) && e.status == status && e.scim_type == scim_type && e.detail == detail
        && e.retry_after is None
}

/// Whether a patch gives a member an externalId that it does not have.
pub open spec fn links(member: MembershipView, patch: UserPatchView) -> bool {
    patch.external_id matches Some(id) && id.len() > 0 && member.external_id != Some(id)
}

/// Whether a patch takes a member's externalId away.
pub open spec fn unlinks(member: MembershipView, patch: UserPatchView) -> bool {
    patch.external_id matches Some(id) && id.len() == 0 && member.external_id is Some
        && member.external_id->Some_0.len() > 0
}

/// Whether a patch restores a revoked member.
pub open spec fn restores(member: MembershipView, patch: UserPatchView) -> bool {
    patch.active == Some(true) && member.status < 0
}

/// Whether a patch revokes an active member.
pub open spec fn revokes(member: MembershipView, patch: UserPatchView) -> bool {
    patch.active == Some(false) && member.status >= 0
}

/// The member with the externalId that a patch asks for.
pub open spec fn after_linking(member: MembershipView, patch: UserPatchView) -> MembershipView {
    if links(member, patch) {
        MembershipView { external_id: patch.external_id, ..member }
    } else if unlinks(member, patch) {
        MembershipView { external_id: None, ..member }
    } else {
        member
    }
}

/// The member as a patch asks for it.
pub open spec fn after_patch(member: MembershipView, patch: UserPatchView) -> MembershipView {
    let linked = after_linking(member, patch);
    if restores(member, patch) {
        MembershipView { status: linked.status + 128, ..linked }
    } else if revokes(member, patch) {
        MembershipView { status: linked.status - 128, ..linked }
    } else {
        linked
    }
}

/// One command where a condition holds.
pub open spec fn only_if(condition: bool, command: UserCommandView) -> Seq<UserCommandView> {
    if condition {
        seq![command]
    } else {
        Seq::empty()
    }
}

/// What an update asks for before it writes the externalId.
pub open spec fn linking(member: MembershipView, patch: UserPatchView) -> Seq<UserCommandView> {
    only_if(
        revokes(member, patch) && member.atype == 0,
        UserCommandView::CountActiveOwners { locked: false },
    ) + only_if(
        links(member, patch),
        UserCommandView::FindByExternalId(patch.external_id->Some_0),
    )
}

/// What an update asks for to write the externalId.
pub open spec fn linked(member: MembershipView, patch: UserPatchView) -> Seq<UserCommandView> {
    let change = links(member, patch) || unlinks(member, patch);
    only_if(change, UserCommandView::Save(after_linking(member, patch))) + only_if(
        change,
        UserCommandView::Log(EventType::OrganizationUserUpdated, member.uuid),
    )
}

/// What an update asks for to restore or revoke the member.
pub open spec fn switched(
    member: MembershipView,
    patch: UserPatchView,
    site: SiteView,
) -> Seq<UserCommandView> {
    let after = after_patch(member, patch);
    if restores(member, patch) {
        seq![UserCommandView::CheckPolicy(after), UserCommandView::Save(after)] + only_if(
            after.status == 0 && site.mail_enabled,
            UserCommandView::SendInvite(after),
        ) + seq![UserCommandView::Log(EventType::OrganizationUserRestored, member.uuid)]
    } else if revokes(member, patch) {
        only_if(member.atype == 0, UserCommandView::CountActiveOwners { locked: true })
            + seq![
            UserCommandView::Save(after),
            UserCommandView::Log(EventType::OrganizationUserRevoked, member.uuid),
        ]
    } else {
        Seq::empty()
    }
}

/// Whether nothing stands against an update before anything is written.
pub open spec fn permitted(db: Members, member: MembershipView, patch: UserPatchView) -> bool {
    &&& restores(member, patch) ==> member.atype == 2
    &&& revokes(member, patch) && member.atype == 0 ==> db.owners > 1
    &&& links(member, patch) ==> patch.external_id->Some_0.len() <= 300 && member.atype == 2 && (
    db.holder)(patch.external_id->Some_0) is None
}

proof fn lemma_change_activity(
    db: Members,
    change: UserChangeView,
    member: MembershipView,
    patch: UserPatchView,
    more: nat,
)
    requires
        change.member == after_linking(member, patch),
        change.active == patch.active,
        change.external_id == patch.external_id,
        !change.deleting,
        permitted(db, member, patch),
        (db.account)(member.user_uuid) is Some,
        (db.saves)(after_patch(member, patch)),
        (db.allows)(after_patch(member, patch)),
        more >= 5,
    ensures
        play(db, change.change_activity(), false, more).0 == switched(member, patch, change.site)
            + seq![UserCommandView::FindUser(member.user_uuid)],
        play(db, change.change_activity(), false, more).1 == Some(
            Ok::<ScimResponseView, ScimErrorView>(
                ScimResponseView {
                    status: 200,
                    location: None,
                    body: Some(
                        scim_user(
                            after_patch(member, patch),
                            (db.account)(member.user_uuid)->Some_0,
                            change.site,
                        ),
                    ),
                },
            ),
        ),
{
    reveal_with_fuel(play, 7);
    let after = after_patch(member, patch);
    let played = play(db, change.change_activity(), false, more).0;
    let expected = switched(member, patch, change.site) + seq![
        UserCommandView::FindUser(member.user_uuid),
    ];
    if restores(member, patch) {
        assert(change.member.restored() == after);
        if after.status == 0 && change.site.mail_enabled {
            assert(played =~= expected);
        } else {
            assert(played =~= expected);
        }
    } else if revokes(member, patch) {
        assert(change.member.revoked() == after);
        if member.atype == 0 {
            assert(played =~= expected);
        } else {
            assert(played =~= expected);
        }
    } else {
        assert(played =~= expected);
    }
}

proof fn lemma_change_external_id(
    db: Members,
    change: UserChangeView,
    member: MembershipView,
    patch: UserPatchView,
    more: nat,
)
    requires
        change.member == member,
        change.active == patch.active,
        change.external_id == patch.external_id,
        !change.deleting,
        permitted(db, member, patch),
        (db.account)(member.user_uuid) is Some,
        (db.saves)(after_linking(member, patch)),
        (db.saves)(after_patch(member, patch)),
        (db.allows)(after_patch(member, patch)),
        more >= 8,
    ensures
        play(db, change.change_external_id(), false, more).0 == only_if(
            links(member, patch),
            UserCommandView::FindByExternalId(patch.external_id->Some_0),
        ) + linked(member, patch) + (switched(member, patch, change.site) + seq![
            UserCommandView::FindUser(member.user_uuid),
        ]),
        play(db, change.change_external_id(), false, more).1 == Some(
            Ok::<ScimResponseView, ScimErrorView>(
                ScimResponseView {
                    status: 200,
                    location: None,
                    body: Some(
                        scim_user(
                            after_patch(member, patch),
                            (db.account)(member.user_uuid)->Some_0,
                            change.site,
                        ),
                    ),
                },
            ),
        ),
{
    let find = UserCommandView::FindByExternalId(patch.external_id->Some_0);
    let held = after_linking(member, patch);
    let save = UserCommandView::Save(held);
    let log = UserCommandView::Log(EventType::OrganizationUserUpdated, member.uuid);
    let tail = switched(member, patch, change.site) + seq![
        UserCommandView::FindUser(member.user_uuid),
    ];
    let begun = change.change_external_id();
    if links(member, patch) || unlinks(member, patch) {
        assert(member.correlated(patch.external_id) == held);
        let saving = if links(member, patch) {
            begun.0.resume(UserReplyView::Found(None))
        } else {
            begun
        };
        let left: nat = if links(member, patch) {
            (more - 1) as nat
        } else {
            more
        };
        assert(saving.1 == UserStepView::Ask(save));
        let logging = saving.0.resume(UserReplyView::Saved(true));
        assert(logging.1 == UserStepView::Ask(log));
        let after = UserChangeView { member: held, ..logging.0 };
        assert(logging.0.resume(UserReplyView::Noted) == after.change_activity());
        lemma_change_activity(db, after, member, patch, (left - 2) as nat);
        assert(play(db, logging, false, (left - 1) as nat).0 =~= seq![log] + tail);
        assert(play(db, saving, false, left).0 =~= seq![save, log] + tail);
        if links(member, patch) {
            assert(begun.1 == UserStepView::Ask(find));
            assert(play(db, begun, false, more).0 =~= seq![find] + (seq![save, log] + tail));
        }
        assert(linked(member, patch) =~= seq![save, log]);
        assert(play(db, begun, false, more).0 =~= only_if(links(member, patch), find) + linked(
            member,
            patch,
        ) + tail);
    } else {
        assert(patch.external_id matches Some(id) && id.len() == 0 && member.external_id is Some
            ==> member.external_id->Some_0 =~= patch.external_id->Some_0);
        assert(begun == change.change_activity());
        lemma_change_activity(db, change, member, patch, more);
        assert(only_if(links(member, patch), find) + linked(member, patch) + tail =~= tail);
    }
}

/// An update that nothing stands against does what it asks for, in order, and no more: a new
/// externalId is looked up before it is written; each write is recorded; a restored member is
/// put to the policies first and invited again where it had only been invited; the owners
/// are counted before the first write and again, under the lock, before an owner is revoked.
/// The answer shows the member as it was asked for.
pub proof fn law_permitted_updates_do_what_they_ask(
    db: Members,
    member: MembershipView,
    patch: UserPatchView,
    site: SiteView,
)
    requires
        permitted(db, member, patch),
        (db.account)(member.user_uuid) is Some,
        (db.saves)(after_linking(member, patch)),
        (db.saves)(after_patch(member, patch)),
        (db.allows)(after_patch(member, patch)),
    ensures
        ({
            let (asked, end) = play(db, update_of(member, patch, site).begin(), false, 9);
            let user = (db.account)(member.user_uuid)->Some_0;
            &&& asked == linking(member, patch) + linked(member, patch) + switched(
                member,
                patch,
                site,
            ) + seq![UserCommandView::FindUser(member.user_uuid)]
            &&& end matches Some(Ok(response)) && response.status == 200
                && response.location is None && response.body == Some(
                scim_user(after_patch(member, patch), user, site),
            )
        }),
{
    let change = update_of(member, patch, site);
    let tail = switched(member, patch, site) + seq![UserCommandView::FindUser(member.user_uuid)];
    let middle = only_if(
        links(member, patch),
        UserCommandView::FindByExternalId(patch.external_id->Some_0),
    ) + linked(member, patch) + tail;
    let count = UserCommandView::CountActiveOwners { locked: false };
    let counts = revokes(member, patch) && member.atype == 0;
    lemma_change_external_id(db, change, member, patch, 9);
    lemma_change_external_id(
        db,
        UserChangeView { phase: ChangePhase::PrecheckOwners, ..change },
        member,
        patch,
        8,
    );
    assert(play(db, change.begin(), false, 9).0 =~= only_if(counts, count) + middle);
    assert(only_if(counts, count) + middle =~= linking(member, patch) + linked(member, patch)
        + switched(member, patch, site) + seq![UserCommandView::FindUser(member.user_uuid)]);
}

/// An update that something stands against is refused before it writes anything: restoring or
/// linking an administrator, revoking the last owner, an externalId that is too long, and one
/// that somebody has.
pub proof fn law_forbidden_updates_are_refused(
    db: Members,
    member: MembershipView,
    patch: UserPatchView,
    site: SiteView,
)
    requires
        !permitted(db, member, patch),
    ensures
        ({
            let (asked, end) = play(db, update_of(member, patch, site).begin(), false, 9);
            let privileged = "This member holds an administrative role; SCIM can deprovision it but cannot reinstate or link it. Restore this member in the web vault"@;
            &&& forall|i: int|
                0 <= i < asked.len() ==> (#[trigger] asked[i] is CountActiveOwners
                    || asked[i] is FindByExternalId)
            &&& if restores(member, patch) && member.atype != 2 {
                refusal(end, 400, Some("mutability"@), privileged)
            } else if revokes(member, patch) && member.atype == 0 && db.owners <= 1 {
                refusal(
                    end,
                    400,
                    Some("mutability"@),
                    "Cannot revoke the last owner of the organization"@,
                )
            } else if patch.external_id->Some_0.len() > 300 {
                refusal(
                    end,
                    400,
                    Some("invalidValue"@),
                    "externalId"@ + " must be at most "@ + decimal_text(300) + " characters"@,
                )
            } else if member.atype != 2 {
                refusal(end, 400, Some("mutability"@), privileged)
            } else {
                refusal(
                    end,
                    409,
                    Some("uniqueness"@),
                    "A member with this externalId already exists"@,
                )
            }
        }),
{
    reveal_with_fuel(play, 4);
}

/// A restore that the policies do not allow is refused, whatever was written of the externalId
/// before; the status stays.
pub proof fn law_blocked_restores_are_refused(
    db: Members,
    member: MembershipView,
    patch: UserPatchView,
    site: SiteView,
)
    requires
        permitted(db, member, patch),
        (db.saves)(after_linking(member, patch)),
        restores(member, patch),
        !(db.allows)(after_patch(member, patch)),
    ensures
        ({
            let (asked, end) = play(db, update_of(member, patch, site).begin(), false, 9);
            &&& asked == linking(member, patch) + linked(member, patch) + seq![
                UserCommandView::CheckPolicy(after_patch(member, patch)),
            ]
            &&& refusal(
                end,
                400,
                Some("invalidValue"@),
                "Restore is blocked by an organization policy"@,
            )
        }),
{
    reveal_with_fuel(play, 6);
    let asked = play(db, update_of(member, patch, site).begin(), false, 9).0;
    let expected = linking(member, patch) + linked(member, patch) + seq![
        UserCommandView::CheckPolicy(after_patch(member, patch)),
    ];
    let held = after_linking(member, patch);
    assert(held.restored() == after_patch(member, patch));
    if links(member, patch) || unlinks(member, patch) {
        assert(member.correlated(patch.external_id) == held);
        assert(asked =~= expected);
    } else {
        assert(patch.external_id matches Some(id) && id.len() == 0 && member.external_id is Some
            ==> member.external_id->Some_0 =~= patch.external_id->Some_0);
        assert(asked =~= expected);
    }
}

/// Where the externalId cannot be written, another member that has it by now is to blame, and
/// otherwise the server; the activity is not touched.
pub proof fn law_failed_links_are_explained(
    db: Members,
    member: MembershipView,
    patch: UserPatchView,
    site: SiteView,
)
    requires
        permitted(db, member, patch),
        links(member, patch) || unlinks(member, patch),
        !(db.saves)(after_linking(member, patch)),
    ensures
        ({
            let (asked, end) = play(db, update_of(member, patch, site).begin(), false, 9);
            let id = patch.external_id->Some_0;
            &&& asked == linking(member, patch) + seq![
                UserCommandView::Save(after_linking(member, patch)),
                UserCommandView::FindByExternalId(id),
            ]
            &&& if (db.rival)(id) is Some && (db.rival)(id) != Some(member.uuid) {
                refusal(
                    end,
                    409,
                    Some("uniqueness"@),
                    "A member with this externalId already exists"@,
                )
            } else {
                refusal(end, 500, None, "Internal server error"@)
            }
        }),
{
    reveal_with_fuel(play, 6);
    let asked = play(db, update_of(member, patch, site).begin(), false, 9).0;
    let held = after_linking(member, patch);
    assert(member.correlated(patch.external_id) == held);
    assert(asked =~= linking(member, patch) + seq![
        UserCommandView::Save(held),
        UserCommandView::FindByExternalId(patch.external_id->Some_0),
    ]);
}

/// Where the activity cannot be written, or the account is gone, the server is to blame, and
/// nothing is recorded or sent for what was not written.
pub proof fn law_failed_writes_are_internal_errors(
    db: Members,
    member: MembershipView,
    patch: UserPatchView,
    site: SiteView,
)
    requires
        permitted(db, member, patch),
        patch.external_id is None,
        (db.allows)(after_patch(member, patch)),
        ((restores(member, patch) || revokes(member, patch)) && !(db.saves)(
            after_patch(member, patch),
        )) || (!restores(member, patch) && !revokes(member, patch) && (db.account)(
            member.user_uuid,
        ) is None),
    ensures
        ({
            let (asked, end) = play(db, update_of(member, patch, site).begin(), false, 9);
            &&& refusal(end, 500, None, "Internal server error"@)
            &&& forall|i: int|
                0 <= i < asked.len() ==> !(#[trigger] asked[i] is Log) && !(asked[i] is SendInvite)
        }),
{
    reveal_with_fuel(play, 6);
    let after = after_patch(member, patch);
    assert(restores(member, patch) ==> member.restored() == after);
    assert(revokes(member, patch) ==> member.revoked() == after);
}

/// A deletion revokes an active member, records it, and is answered without content; of a
/// member that is revoked already it changes nothing, and the last owner it leaves alone. The
/// owners are counted under the lock.
pub proof fn law_deletions_revoke(db: Members, member: MembershipView, site: SiteView)
    ensures
        ({
            let (asked, end) = play(db, deletion_of(member, site).change_activity(), false, 9);
            let count = UserCommandView::CountActiveOwners { locked: true };
            let after = MembershipView { status: member.status - 128, ..member };
            if member.status < 0 {
                &&& asked == Seq::<UserCommandView>::empty()
                &&& end matches Some(Ok(response)) && response.status == 204
                    && response.body is None && response.location is None
            } else if member.atype == 0 && db.owners <= 1 {
                &&& asked == seq![count]
                &&& refusal(
                    end,
                    400,
                    Some("mutability"@),
                    "Cannot revoke the last owner of the organization"@,
                )
            } else if !(db.saves)(after) {
                &&& asked == only_if(member.atype == 0, count) + seq![UserCommandView::Save(after)]
                &&& refusal(end, 500, None, "Internal server error"@)
            } else {
                &&& asked == only_if(member.atype == 0, count) + seq![
                    UserCommandView::Save(after),
                    UserCommandView::Log(EventType::OrganizationUserRevoked, member.uuid),
                ]
                &&& end matches Some(Ok(response)) && response.status == 204
                    && response.body is None && response.location is None
            }
        }),
{
    reveal_with_fuel(play, 6);
    let asked = play(db, deletion_of(member, site).change_activity(), false, 9).0;
    let count = UserCommandView::CountActiveOwners { locked: true };
    let after = MembershipView { status: member.status - 128, ..member };
    let save = UserCommandView::Save(after);
    let log = UserCommandView::Log(EventType::OrganizationUserRevoked, member.uuid);
    if member.status >= 0 {
        assert(member.revoked() == after);
        if member.atype == 0 && db.owners <= 1 {
            assert(asked =~= seq![count]);
        } else if !(db.saves)(after) {
            assert(asked =~= only_if(member.atype == 0, count) + seq![save]);
        } else {
            assert(asked =~= only_if(member.atype == 0, count) + seq![save, log]);
        }
    }
}

/// A PUT asks for what it carries of the two attributes that SCIM owns, and for nothing of an
/// attribute that it leaves out: neither the address nor a name of the request matters.
pub proof fn law_replacements_ask_for_what_they_carry(
    request: ScimUserRequest,
    other: ScimUserRequest,
)
    ensures
        request.external_id matches Some(id) ==> replacement(request).external_id == Some(id@),
        request.external_id is None ==> replacement(request).external_id is None,
        request.active matches Some(active) ==> replacement(request).active == Some(active.0),
        request.active is None ==> replacement(request).active is None,
        request.external_id == other.external_id && request.active == other.active ==> replacement(
            request,
        ) == replacement(other),
{
}

/// Whether a reply is one to a command.
pub open spec fn answers(command: UserCommandView, reply: UserReplyView) -> bool {
    match command {
        UserCommandView::FindByExternalId(_) => reply is Found,
        UserCommandView::CountActiveOwners { .. } => reply is Owners,
        UserCommandView::CheckPolicy(_) => reply is Allowed,
        UserCommandView::Save(_) => reply is Saved,
        UserCommandView::SendInvite(_) => reply is Noted,
        UserCommandView::Log(_, _) => reply is Noted,
        UserCommandView::FindUser(_) => reply is Account,
    }
}

spec fn waits_for_answer(state: (UserChangeView, UserStepView)) -> bool {
    state.1 matches UserStepView::Ask(command) ==> (match state.0.phase {
        ChangePhase::PrecheckOwners => command is CountActiveOwners,
        ChangePhase::FindExternalId => command is FindByExternalId,
        ChangePhase::SaveExternalId => command is Save,
        ChangePhase::RecheckExternalId => command is FindByExternalId,
        ChangePhase::LogExternalId => command is Log,
        ChangePhase::CheckPolicy => command is CheckPolicy,
        ChangePhase::SaveRestored => command is Save,
        ChangePhase::InviteRestored => command is SendInvite,
        ChangePhase::LogRestored => command is Log,
        ChangePhase::CountOwners => command is CountActiveOwners,
        ChangePhase::SaveRevoked => command is Save,
        ChangePhase::LogRevoked => command is Log,
        ChangePhase::FindUser => command is FindUser,
        ChangePhase::Finished => false,
    })
}

proof fn lemma_waits_for_answer(
    start: (UserChangeView, UserStepView),
    replies: Seq<UserReplyView>,
)
    requires
        waits_for_answer(start),
    ensures
        waits_for_answer(run(start, replies)),
    decreases replies.len(),
{
    if replies.len() > 0 {
        lemma_waits_for_answer(start, replies.drop_last());
    }
}

/// A reply that does not answer what was asked ends a change with an internal error.
pub proof fn law_other_replies_end_a_change(
    member: MembershipView,
    site: SiteView,
    start: (UserChangeView, UserStepView),
    replies: Seq<UserReplyView>,
    command: UserCommandView,
    reply: UserReplyView,
)
    requires
        started(start, member, site),
        run(start, replies).1 == UserStepView::Ask(command),
        !answers(command, reply),
    ensures
        run(start, replies).0.resume(reply).1 matches UserStepView::Done(result) && refusal(
            Some(result),
            500,
            None,
            "Internal server error"@,
        ),
{
    lemma_waits_for_answer(start, replies);
}

} // verus!
