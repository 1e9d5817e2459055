//! What holds of every change of a member, whatever the database replies.

use vstd::prelude::*;

use crate::error::ScimErrorView;
use crate::membership::{stored_external_id, MembershipView};
use crate::patch::UserPatchView;
use crate::scim::ScimResponseView;
use crate::users::{deletion_of, update_of, SiteView, UserChangeView, UserCommandView, UserReplyView, UserStepView};

verus! {

/// Where a change stands after a list of replies. Replies after the answer are not
/// looked at.
pub open spec fn run(
    start: (UserChangeView, UserStepView),
    replies: Seq<UserReplyView>,
) -> (UserChangeView, UserStepView)
    decreases replies.len(),
{
    if replies.len() == 0 {
        start
    } else {
        let before = run(start, replies.drop_last());
        if before.1 is Done {
            before
        } else {
            before.0.resume(replies.last())
        }
    }
}

/// Whether a step asks for a write of the member.
pub open spec fn is_save(step: UserStepView) -> bool {
    step matches UserStepView::Ask(command) && command is Save
}

/// Whether a step is the answer to a change that was carried out.
pub open spec fn accepted(step: UserStepView) -> bool {
    step matches UserStepView::Done(result) && result is Ok
}

/// Whether a step is the answer to a change that was not carried out.
pub open spec fn refused(step: UserStepView) -> bool {
    step matches UserStepView::Done(result) && result is Err
}

/// Whether a write of the member was asked for on the way.
pub open spec fn wrote(
    start: (UserChangeView, UserStepView),
    replies: Seq<UserReplyView>,
) -> bool
    decreases replies.len(),
{
    if replies.len() == 0 {
        is_save(start.1)
    } else {
        wrote(start, replies.drop_last()) || is_save(run(start, replies).1)
    }
}

/// The change of a member, either an update or a deletion, at its first step.
pub open spec fn started(
    start: (UserChangeView, UserStepView),
    member: MembershipView,
    site: SiteView,
) -> bool {
    ||| start == deletion_of(member, site).change_activity()
    ||| exists|patch: UserPatchView| start == #[trigger] update_of(member, patch, site).begin()
}

// What a change may hold of the member it began with.
spec fn faithful(member: MembershipView, state: (UserChangeView, UserStepView)) -> bool {
    &&& state.0.member.same_grant(member)
    &&& state.1 matches UserStepView::Ask(UserCommandView::Save(saved)) ==> saved == state.0.member
    &&& state.1 matches UserStepView::Ask(UserCommandView::CheckPolicy(held)) ==> held
        == state.0.member
    &&& member.privileged() ==> {
        &&& state.0.member.active() ==> member.active()
        &&& state.0.member.external_id is Some ==> state.0.member.external_id == member.external_id
    }
}

proof fn lemma_faithful(
    member: MembershipView,
    site: SiteView,
    start: (UserChangeView, UserStepView),
    replies: Seq<UserReplyView>,
)
    requires
        started(start, member, site),
    ensures
        faithful(member, run(start, replies)),
    decreases replies.len(),
{
    if replies.len() > 0 {
        lemma_faithful(member, site, start, replies.drop_last());
    }
}

/// SCIM owns the status and the externalId of a membership, and nothing else:
/// whatever happens, a write carries the key, the role and the account of the
/// membership as they were.
pub proof fn law_changes_keep_the_grant(
    member: MembershipView,
    site: SiteView,
    start: (UserChangeView, UserStepView),
    replies: Seq<UserReplyView>,
    saved: MembershipView,
)
    requires
        started(start, member, site),
        run(start, replies).1 == UserStepView::Ask(UserCommandView::Save(saved)),
    ensures
        saved.same_grant(member),
{
    lemma_faithful(member, site, start, replies);
}

/// SCIM never grants administrative privilege: no write reinstates an
/// administrator, and none links one to a directory object.
pub proof fn law_administrators_are_never_reinstated_or_linked(
    member: MembershipView,
    site: SiteView,
    start: (UserChangeView, UserStepView),
    replies: Seq<UserReplyView>,
    saved: MembershipView,
)
    requires
        started(start, member, site),
        member.privileged(),
        run(start, replies).1 == UserStepView::Ask(UserCommandView::Save(saved)),
    ensures
        saved.active() ==> member.active(),
        saved.external_id is Some ==> saved.external_id == member.external_id,
{
    lemma_faithful(member, site, start, replies);
}

/// An owner is revoked only on a count of at least two active owners, and that
/// count is taken under the lock on owner revocations.
pub proof fn law_last_owner_is_never_revoked(
    change: UserChangeView,
    reply: UserReplyView,
    saved: MembershipView,
)
    requires
        change.member.owner(),
        change.member.active(),
        change.resume(reply).1 == UserStepView::Ask(UserCommandView::Save(saved)),
        !saved.active(),
    ensures
        change.phase is CountOwners,
        reply matches UserReplyView::Owners(n) && n >= 2,
{
}

/// The count that decides whether an owner may be revoked is asked for under the lock.
pub proof fn law_deciding_count_is_locked(change: UserChangeView, reply: UserReplyView)
    requires
        change.resume(reply).0.phase is CountOwners,
    ensures
        change.resume(reply).1 == UserStepView::Ask(
            UserCommandView::CountActiveOwners { locked: true },
        ),
{
}

/// Revoking a revoked member is done at once, and writes nothing.
pub proof fn law_deprovisioning_is_idempotent(member: MembershipView, site: SiteView)
    requires
        !member.active(),
    ensures
        deletion_of(member, site).change_activity().1 == UserStepView::Done(
            Ok(ScimResponseView::no_content()),
        ),
{
}

/// Deleting a member and setting it inactive ask for the same write, of the member
/// revoked.
pub proof fn law_deletion_is_revocation(member: MembershipView, site: SiteView)
    requires
        member.active(),
        !member.owner(),
    ensures
        deletion_of(member, site).change_activity().1 == UserStepView::Ask(
            UserCommandView::Save(member.revoked()),
        ),
        update_of(
            member,
            UserPatchView { active: Some(false), external_id: None },
            site,
        ).begin().1 == UserStepView::Ask(UserCommandView::Save(member.revoked())),
{
}

/// Replies of a database that works and does not change under the request's feet:
/// writes succeed, policies allow, owner counts agree, and accounts exist.
pub open spec fn steady(replies: Seq<UserReplyView>, owners: int) -> bool {
    forall|i: int|
        0 <= i < replies.len() ==> match #[trigger] replies[i] {
            UserReplyView::Saved(saved) => saved,
            UserReplyView::Allowed(allowed) => allowed,
            UserReplyView::Owners(n) => n == owners,
            UserReplyView::Account(found) => found is Some,
            _ => true,
        }
}

// The activity that was asked for will not be refused.
spec fn cleared(change: UserChangeView, owners: int) -> bool {
    &&& change.active == Some(true) && !change.member.active() ==> !change.member.privileged()
    &&& change.active == Some(false) && change.member.active() && change.member.owner() ==> owners
        > 1
}

spec fn careful(state: (UserChangeView, UserStepView), wrote: bool, owners: int) -> bool {
    let phase = state.0.phase;
    &&& phase is PrecheckOwners || phase is FindExternalId ==> !wrote
    &&& phase is FindExternalId || phase is SaveExternalId || phase is LogExternalId ==> cleared(
        state.0,
        owners,
    )
    &&& phase is CountOwners ==> cleared(state.0, owners) || !wrote
    &&& !(phase is RecheckExternalId)
    &&& state.1 matches UserStepView::Done(Err(e)) ==> e.status == 500 || !wrote
}

proof fn lemma_careful(
    member: MembershipView,
    site: SiteView,
    start: (UserChangeView, UserStepView),
    replies: Seq<UserReplyView>,
    owners: int,
)
    requires
        started(start, member, site),
        steady(replies, owners),
    ensures
        careful(run(start, replies), wrote(start, replies), owners),
    decreases replies.len(),
{
    if replies.len() > 0 {
        let earlier = replies.drop_last();
        assert forall|i: int| 0 <= i < earlier.len() implies #[trigger] earlier[i]
            == replies[i] by {}
        lemma_careful(member, site, start, earlier, owners);
        assert(replies.last() == replies[replies.len() - 1]);
    }
}

/// A change that is refused writes nothing, as long as the database works and does
/// not change under the request's feet: what can be refused is refused before the
/// first write.
pub proof fn law_refused_changes_write_nothing(
    member: MembershipView,
    site: SiteView,
    start: (UserChangeView, UserStepView),
    replies: Seq<UserReplyView>,
    owners: int,
    e: ScimErrorView,
)
    requires
        started(start, member, site),
        steady(replies, owners),
        run(start, replies).1 == UserStepView::Done(Err(e)),
        e.status != 500,
    ensures
        !wrote(start, replies),
{
    lemma_careful(member, site, start, replies, owners);
}

// What was asked for holds of the member.
spec fn applied(change: UserChangeView) -> bool {
    &&& change.external_id is Some ==> change.member.external_id == stored_external_id(
        change.external_id,
    )
}

spec fn effective(state: (UserChangeView, UserStepView)) -> bool {
    let change = state.0;
    let phase = change.phase;
    &&& state.1 is Done ==> phase is Finished
    &&& change.member.well_formed()
    &&& change.member.external_id matches Some(id) ==> id.len() > 0
    &&& !(phase is PrecheckOwners || phase is FindExternalId || phase is RecheckExternalId || refused(
        state.1,
    )) ==> applied(change)
    &&& phase is CheckPolicy || phase is SaveRestored || phase is InviteRestored
        || phase is LogRestored ==> change.active == Some(true) && change.member.active()
    &&& phase is CountOwners ==> change.active == Some(false)
    &&& phase is SaveRevoked || phase is LogRevoked ==> change.active == Some(false)
        && !change.member.active()
    &&& phase is FindUser || accepted(state.1) ==> (change.active matches Some(active)
        ==> change.member.active() == active)
}

proof fn lemma_effective(
    member: MembershipView,
    site: SiteView,
    start: (UserChangeView, UserStepView),
    replies: Seq<UserReplyView>,
)
    requires
        started(start, member, site),
        member.well_formed(),
        member.external_id matches Some(id) ==> id.len() > 0,
    ensures
        effective(run(start, replies)),
    decreases replies.len(),
{
    if replies.len() > 0 {
        lemma_effective(member, site, start, replies.drop_last());
    }
}

/// A change that is answered with success has taken effect: the member is as active
/// as was asked for, and carries the externalId that was asked for.
pub proof fn law_accepted_changes_take_effect(
    member: MembershipView,
    site: SiteView,
    start: (UserChangeView, UserStepView),
    replies: Seq<UserReplyView>,
)
    requires
        started(start, member, site),
        member.well_formed(),
        member.external_id matches Some(id) ==> id.len() > 0,
        accepted(run(start, replies).1),
    ensures
        ({
            let change = run(start, replies).0;
            &&& change.active matches Some(active) ==> change.member.active() == active
            &&& change.external_id is Some ==> change.member.external_id == stored_external_id(
                change.external_id,
            )
        }),
{
    lemma_effective(member, site, start, replies);
}

/// The member as the database has it after a list of replies: the last write that
/// succeeded, and the member as it was where none did.
pub open spec fn stored(
    member: MembershipView,
    start: (UserChangeView, UserStepView),
    replies: Seq<UserReplyView>,
) -> MembershipView
    decreases replies.len(),
{
    if replies.len() == 0 {
        member
    } else {
        match run(start, replies.drop_last()).1 {
            UserStepView::Ask(UserCommandView::Save(saved)) => if replies.last()
                == UserReplyView::Saved(true) {
                saved
            } else {
                stored(member, start, replies.drop_last())
            },
            _ => stored(member, start, replies.drop_last()),
        }
    }
}

spec fn in_step(state: (UserChangeView, UserStepView), stored: MembershipView) -> bool {
    let phase = state.0.phase;
    let saving = phase is SaveExternalId || phase is SaveRestored || phase is SaveRevoked;
    &&& saving ==> state.1 == UserStepView::Ask(UserCommandView::Save(state.0.member))
    &&& !(saving || phase is RecheckExternalId || phase is CheckPolicy || refused(state.1))
        ==> stored == state.0.member
}

proof fn lemma_in_step(
    member: MembershipView,
    site: SiteView,
    start: (UserChangeView, UserStepView),
    replies: Seq<UserReplyView>,
)
    requires
        started(start, member, site),
    ensures
        in_step(run(start, replies), stored(member, start, replies)),
    decreases replies.len(),
{
    if replies.len() > 0 {
        lemma_in_step(member, site, start, replies.drop_last());
    }
}

/// A change that is answered with success is in the database: what the answer shows is what
/// was last written, or the member as it was where nothing had to be.
pub proof fn law_accepted_changes_are_stored(
    member: MembershipView,
    site: SiteView,
    start: (UserChangeView, UserStepView),
    replies: Seq<UserReplyView>,
)
    requires
        started(start, member, site),
        accepted(run(start, replies).1),
    ensures
        stored(member, start, replies) == run(start, replies).0.member,
{
    lemma_in_step(member, site, start, replies);
    lemma_accepted_is_finished(member, site, start, replies);
}

proof fn lemma_accepted_is_finished(
    member: MembershipView,
    site: SiteView,
    start: (UserChangeView, UserStepView),
    replies: Seq<UserReplyView>,
)
    requires
        started(start, member, site),
        run(start, replies).1 is Done,
    ensures
        run(start, replies).0.phase is Finished,
    decreases replies.len(),
{
    if replies.len() > 0 && run(start, replies.drop_last()).1 is Done {
        lemma_accepted_is_finished(member, site, start, replies.drop_last());
    }
}

/// Whatever a change is refused for, the answer is one that RFC 7644 knows.
pub proof fn law_refusals_of_changes_are_well_typed(
    change: UserChangeView,
    reply: UserReplyView,
    e: ScimErrorView,
)
    requires
        change.resume(reply).1 == UserStepView::Done(Err(e)) || change.begin().1
            == UserStepView::Done(Err(e)),
    ensures
        e.well_typed(),
{
}

} // verus!
