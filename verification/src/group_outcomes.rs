//! What a change of a group has to pass, and what comes of it.

use vstd::prelude::*;

use crate::account::EventType;
use crate::error::ScimErrorView;
use crate::group::{fresh, lemma_fresh, GroupView};
use crate::group_change::{
    change_of, new_group, new_name, DeletionCommandView, DeletionPhase, DeletionReply,
    DeletionStepView, GroupChangeView, GroupCommandView, GroupDeletionView, GroupIntentView,
    GroupPhase, GroupReplyView, GroupStepView, ScimGroupRequestView,
};
use crate::group_laws::{law_member_writes_take_effect, law_replacement_is_exact, replay, run};
use crate::group_members::{
    all_resolve, any_adds, known_ids, members_after, named_ids, MemberWriteView,
};
use crate::groups::{scim_group, GroupFactsView, GroupLookupView, PendingView};
use crate::json::JsonView;
use crate::patch::{total_values, GroupPatchView, MemberOpView};
use crate::patch_meaning::{asks_for, law_group_members_are_changed, lists_ids, refused};
use crate::scim::ScimResponseView;
use crate::text::{decimal_text, is_white_space, same_ignoring_case};
use crate::users::SiteView;
use crate::users_outcomes::refusal;

verus! {

/// Whether everything that a decision may need has been looked up.
pub open spec fn complete(facts: GroupFactsView) -> bool {
    facts.known is Some && facts.holder is Some && facts.has_collections is Some
        && facts.members is Some
}

/// Whether a check refuses, and how.
pub open spec fn turned_down(
    verdict: Result<(), PendingView>,
    status: int,
    scim_type: Seq<char>,
    detail: Seq<char>,
) -> bool {
    verdict matches Err(PendingView::Refused(e)) && e.status == status && e.scim_type == Some(
        scim_type,
    ) && e.detail == detail && e.retry_after is None
}

/// What is said of a text that is too long.
pub open spec fn at_most(name: Seq<char>, max: nat) -> Seq<char> {
    name + " must be at most "@ + decimal_text(max) + " characters"@
}

/// Whether a text holds nothing that can be seen.
pub open spec fn blank(s: Seq<char>) -> bool {
    forall|i: int| 0 <= i < s.len() ==> is_white_space(#[trigger] s[i])
}

/// Whether some id is not among those that are known.
pub open spec fn names_stranger(ids: Seq<Seq<char>>, known: Seq<Seq<char>>) -> bool {
    exists|i: int| 0 <= i < ids.len() && !known.contains(#[trigger] ids[i])
}

/// A new group passes exactly where its externalId fits and is free, and where its members
/// are not too many and all of the organization; otherwise the first of these that fails is
/// what it is refused for.
pub proof fn law_new_groups_pass_exactly(change: GroupChangeView, request: ScimGroupRequestView)
    requires
        change.intent == GroupIntentView::Create(request),
        complete(change.facts),
    ensures
        ({
            let ids = match request.members {
                Some(ids) => ids,
                None => Seq::empty(),
            };
            let long = request.external_id is Some && request.external_id->Some_0.len() > 300;
            let taken = request.external_id is Some && change.facts.holder->Some_0 is Some;
            let many = ids.len() > 1000;
            let stranger = names_stranger(ids, change.facts.known->Some_0);
            &&& change.verdict() is Ok <==> !long && !taken && !many && !stranger
            &&& long ==> turned_down(
                change.verdict(),
                400,
                "invalidValue"@,
                at_most("externalId"@, 300),
            )
            &&& !long && taken ==> turned_down(
                change.verdict(),
                409,
                "uniqueness"@,
                "A group with this externalId already exists"@,
            )
            &&& !long && !taken && many ==> turned_down(
                change.verdict(),
                400,
                "invalidValue"@,
                "Too many members in one request; split the membership update across several requests"@,
            )
            &&& !long && !taken && !many && stranger ==> turned_down(
                change.verdict(),
                400,
                "invalidValue"@,
                "members must reference existing members of this organization (provision the user first)"@,
            )
        }),
{
    let ids = match request.members {
        Some(ids) => ids,
        None => Seq::empty(),
    };
    assert(crate::groups::all_known(ids, change.facts.known->Some_0) <==> !names_stranger(
        ids,
        change.facts.known->Some_0,
    ));
}

/// Whether a group hands its members access to collections.
pub open spec fn opens(group: GroupView, facts: GroupFactsView) -> bool {
    group.access_all || facts.has_collections == Some(true)
}

/// Whether a group may be added to: it opens nothing, or it is correlated with the directory
/// and does not open everything.
pub open spec fn open_to_additions(group: GroupView, facts: GroupFactsView) -> bool {
    !group.access_all && (group.external_id is Some || facts.has_collections == Some(false))
}

/// What a new externalId and a new name of a group are refused for.
pub open spec fn attributes_refused(
    verdict: Result<(), PendingView>,
    group: GroupView,
    display_name: Option<Seq<char>>,
    external_id: Option<Seq<char>>,
    facts: GroupFactsView,
) -> bool {
    let sets = external_id is Some && !blank(external_id->Some_0);
    let clears = external_id is Some && blank(external_id->Some_0) && group.external_id is Some;
    let long = sets && external_id->Some_0.len() > 300;
    let taken = sets && facts.holder->Some_0 is Some && facts.holder->Some_0 != Some(group.uuid);
    let adopts = sets && group.external_id is None && opens(group, facts);
    let abandons = clears && opens(group, facts);
    let nameless = display_name is Some && blank(display_name->Some_0);
    let long_name = display_name is Some && display_name->Some_0.len() > 100;
    if long {
        turned_down(verdict, 400, "invalidValue"@, at_most("externalId"@, 300))
    } else if taken {
        turned_down(verdict, 409, "uniqueness"@, "A group with this externalId already exists"@)
    } else if adopts {
        turned_down(
            verdict,
            400,
            "mutability"@,
            "This group grants collection access and is not managed by SCIM; its externalId cannot be set through SCIM. Correlate it in the web vault instead"@,
        )
    } else if abandons {
        turned_down(
            verdict,
            400,
            "mutability"@,
            "This group grants collection access and is not managed by SCIM; clearing its externalId would put it permanently out of SCIM's reach. Change it in the web vault"@,
        )
    } else if nameless {
        turned_down(
            verdict,
            400,
            "invalidValue"@,
            "displayName is required and cannot be cleared"@,
        )
    } else {
        long_name && turned_down(verdict, 400, "invalidValue"@, at_most("displayName"@, 100))
    }
}

/// Whether a new externalId and a new name of a group are in order.
pub open spec fn attributes_in_order(
    group: GroupView,
    display_name: Option<Seq<char>>,
    external_id: Option<Seq<char>>,
    facts: GroupFactsView,
) -> bool {
    &&& external_id matches Some(id) ==> {
        &&& blank(id) && group.external_id is Some ==> !opens(group, facts)
        &&& !blank(id) ==> id.len() <= 300 && (facts.holder->Some_0 is None || facts.holder->Some_0
            == Some(group.uuid)) && (group.external_id is None ==> !opens(group, facts))
    }
    &&& display_name matches Some(name) ==> !blank(name) && name.len() <= 100
}

/// The text of a refusal to add to a group.
pub open spec fn not_open_to_additions() -> Seq<char> {
    "This group grants collection access and is not managed by SCIM (no externalId, or it grants access to all collections); members can be removed from it but not added. Add them in the web vault"@
}

/// A replacement passes exactly where its members are not too many and all of the
/// organization, where its externalId and its name are in order, and where it adds nobody to a
/// group that is not open to additions; otherwise the first of these that fails is what it is
/// refused for.
pub proof fn law_replacements_pass_exactly(change: GroupChangeView, request: ScimGroupRequestView)
    requires
        change.intent == GroupIntentView::Replace(request),
        complete(change.facts),
    ensures
        ({
            let group = change.group;
            let facts = change.facts;
            let ids = match request.members {
                Some(ids) => ids,
                None => Seq::empty(),
            };
            let many = ids.len() > 1000;
            let stranger = names_stranger(ids, facts.known->Some_0);
            let fine = attributes_in_order(
                group,
                request.display_name,
                request.external_id,
                facts,
            );
            let newcomer = names_stranger(ids, facts.members->Some_0);
            let shut = newcomer && !open_to_additions(group, facts);
            &&& change.verdict() is Ok <==> !many && !stranger && fine && !shut
            &&& many ==> turned_down(
                change.verdict(),
                400,
                "invalidValue"@,
                "Too many members in one request; split the membership update across several requests"@,
            )
            &&& !many && stranger ==> turned_down(
                change.verdict(),
                400,
                "invalidValue"@,
                "members must reference existing members of this organization (provision the user first)"@,
            )
            &&& !many && !stranger && !fine ==> attributes_refused(
                change.verdict(),
                group,
                request.display_name,
                request.external_id,
                facts,
            )
            &&& !many && !stranger && fine && shut ==> turned_down(
                change.verdict(),
                400,
                "mutability"@,
                not_open_to_additions(),
            )
        }),
{
    let facts = change.facts;
    let ids = match request.members {
        Some(ids) => ids,
        None => Seq::empty(),
    };
    let known = facts.known->Some_0;
    let current = facts.members->Some_0;
    assert(crate::groups::all_known(ids, known) <==> !names_stranger(ids, known));
    lemma_fresh(ids, current);
    if names_stranger(ids, current) {
        let i = choose|i: int| 0 <= i < ids.len() && !current.contains(#[trigger] ids[i]);
        assert(ids.contains(ids[i]));
        assert(fresh(ids, current).contains(ids[i]));
    } else if fresh(ids, current).len() > 0 {
        let id = fresh(ids, current)[0];
        assert(fresh(ids, current).contains(id));
        let i = choose|i: int| 0 <= i < ids.len() && ids[i] == id;
        assert(!current.contains(ids[i]));
    }
    lemma_attributes(change.group, request.display_name, request.external_id, facts);
}

proof fn lemma_attributes(
    group: GroupView,
    display_name: Option<Seq<char>>,
    external_id: Option<Seq<char>>,
    facts: GroupFactsView,
)
    requires
        complete(facts),
    ensures
        ({
            let first = crate::groups::external_id_change(group, external_id, facts);
            let second = crate::groups::name_change(display_name);
            let both = match first {
                Ok(_) => second,
                Err(p) => Err(p),
            };
            &&& both is Ok <==> attributes_in_order(group, display_name, external_id, facts)
            &&& both is Err ==> attributes_refused(both, group, display_name, external_id, facts)
        }),
{
    if external_id is Some {
        assert(crate::text::is_blank_text(external_id->Some_0) == blank(external_id->Some_0));
    }
    if display_name is Some {
        assert(crate::text::is_blank_text(display_name->Some_0) == blank(display_name->Some_0));
    }
}

/// Whether a member operation adds somebody, or tries to, at its turn: an add of anybody, or a
/// replacement by somebody who is not in the group by then.
pub open spec fn adds_at_its_turn(
    current: Seq<Seq<char>>,
    ops: Seq<MemberOpView>,
    k: int,
) -> bool {
    match ops[k] {
        MemberOpView::Add(ids) => ids.len() > 0,
        MemberOpView::Remove(_) => false,
        MemberOpView::Replace(ids) => names_stranger(ids, members_after(current, ops.take(k))),
    }
}

proof fn lemma_adds_at_some_turn(current: Seq<Seq<char>>, ops: Seq<MemberOpView>)
    ensures
        any_adds(current, ops) <==> exists|k: int|
            0 <= k < ops.len() && #[trigger] adds_at_its_turn(current, ops, k),
    decreases ops.len(),
{
    if ops.len() > 0 {
        let rest = ops.drop_last();
        let n = ops.len() - 1;
        lemma_adds_at_some_turn(current, rest);
        assert(ops.take(n) =~= rest);
        let before = members_after(current, rest);
        if let MemberOpView::Replace(ids) = ops.last() {
            lemma_fresh(ids, before);
            if names_stranger(ids, before) {
                let i = choose|i: int| 0 <= i < ids.len() && !before.contains(#[trigger] ids[i]);
                assert(ids.contains(ids[i]));
                assert(fresh(ids, before).contains(ids[i]));
            } else if fresh(ids, before).len() > 0 {
                let id = fresh(ids, before)[0];
                assert(fresh(ids, before).contains(id));
                let i = choose|i: int| 0 <= i < ids.len() && ids[i] == id;
                assert(!before.contains(ids[i]));
            }
        }
        assert(crate::group_members::adds(before, ops.last()) <==> adds_at_its_turn(
            current,
            ops,
            n,
        ));
        assert forall|k: int| 0 <= k < n implies adds_at_its_turn(current, rest, k)
            == #[trigger] adds_at_its_turn(current, ops, k) by {
            assert(rest.take(k) =~= ops.take(k));
        }
        if any_adds(current, rest) {
            let k = choose|k: int|
                0 <= k < rest.len() && #[trigger] adds_at_its_turn(current, rest, k);
            assert(adds_at_its_turn(current, ops, k));
        }
        if exists|k: int| 0 <= k < ops.len() && #[trigger] adds_at_its_turn(current, ops, k) {
            let k = choose|k: int|
                0 <= k < ops.len() && #[trigger] adds_at_its_turn(current, ops, k);
            if k < n {
                assert(adds_at_its_turn(current, rest, k));
            }
        }
    }
}

/// Whether a member operation other than a removal names somebody unknown.
pub open spec fn brings_stranger(ops: Seq<MemberOpView>, known: Seq<Seq<char>>) -> bool {
    exists|k: int|
        0 <= k < ops.len() && (match #[trigger] ops[k] {
            MemberOpView::Add(ids) => names_stranger(ids, known),
            MemberOpView::Remove(_) => false,
            MemberOpView::Replace(ids) => names_stranger(ids, known),
        })
}

proof fn lemma_brings_stranger(ops: Seq<MemberOpView>, known: Seq<Seq<char>>)
    ensures
        all_resolve(ops, known) <==> !brings_stranger(ops, known),
{
    assert forall|k: int| 0 <= k < ops.len() implies (crate::group_members::op_resolves(
        #[trigger] ops[k],
        known,
    ) <==> !(match ops[k] {
        MemberOpView::Add(ids) => names_stranger(ids, known),
        MemberOpView::Remove(_) => false,
        MemberOpView::Replace(ids) => names_stranger(ids, known),
    })) by {
        let ids = ops[k].values();
        assert(crate::groups::all_known(ids, known) <==> !names_stranger(ids, known));
    }
}

/// A patch passes exactly where it has not too many member operations and values, where its
/// externalId and its name are in order, where nobody it adds is a stranger, and where nobody
/// is added to a group that is not open to additions; otherwise the first of these that fails
/// is what it is refused for. Whom a removal names does not matter.
pub proof fn law_patches_pass_exactly(change: GroupChangeView, patch: GroupPatchView)
    requires
        change.intent == GroupIntentView::Patch(patch),
        complete(change.facts),
    ensures
        ({
            let group = change.group;
            let facts = change.facts;
            let ops = patch.member_ops;
            let many_ops = ops.len() > 1000;
            let many = total_values(ops) > 1000;
            let fine = attributes_in_order(group, patch.display_name, patch.external_id, facts);
            let stranger = brings_stranger(ops, facts.known->Some_0);
            let shut = !open_to_additions(group, facts) && exists|k: int|
                0 <= k < ops.len() && #[trigger] adds_at_its_turn(facts.members->Some_0, ops, k);
            &&& change.verdict() is Ok <==> !many_ops && !many && fine && !stranger && !shut
            &&& many_ops ==> turned_down(
                change.verdict(),
                400,
                "invalidValue"@,
                "Too many member operations in one request; split the membership update across several requests"@,
            )
            &&& !many_ops && many ==> turned_down(
                change.verdict(),
                400,
                "invalidValue"@,
                "Too many members in one request; split the membership update across several requests"@,
            )
            &&& !many_ops && !many && !fine ==> attributes_refused(
                change.verdict(),
                group,
                patch.display_name,
                patch.external_id,
                facts,
            )
            &&& !many_ops && !many && fine && stranger ==> turned_down(
                change.verdict(),
                400,
                "invalidValue"@,
                "members must reference existing members of this organization (provision the user first)"@,
            )
            &&& !many_ops && !many && fine && !stranger && shut ==> turned_down(
                change.verdict(),
                400,
                "mutability"@,
                not_open_to_additions(),
            )
        }),
{
    let facts = change.facts;
    lemma_attributes(change.group, patch.display_name, patch.external_id, facts);
    lemma_brings_stranger(patch.member_ops, facts.known->Some_0);
    lemma_adds_at_some_turn(facts.members->Some_0, patch.member_ops);
}

/// The values of a list of member operations are counted one by one, whatever the operations
/// are.
pub proof fn law_values_are_counted(ops: Seq<MemberOpView>, ids: Seq<Seq<char>>)
    ensures
        total_values(Seq::<MemberOpView>::empty()) == 0,
        total_values(ops.push(MemberOpView::Add(ids))) == total_values(ops) + ids.len(),
        total_values(ops.push(MemberOpView::Remove(ids))) == total_values(ops) + ids.len(),
        total_values(ops.push(MemberOpView::Replace(ids))) == total_values(ops) + ids.len(),
{
    assert(ops.push(MemberOpView::Add(ids)).drop_last() =~= ops);
    assert(ops.push(MemberOpView::Remove(ids)).drop_last() =~= ops);
    assert(ops.push(MemberOpView::Replace(ids)).drop_last() =~= ops);
}

// ---------------------------------------------------------------------------
// What is looked up
// ---------------------------------------------------------------------------

/// The externalId that a change asks for.
pub open spec fn asked_external_id(intent: GroupIntentView) -> Option<Seq<char>> {
    match intent {
        GroupIntentView::Create(request) => request.external_id,
        GroupIntentView::Replace(request) => request.external_id,
        GroupIntentView::Patch(patch) => patch.external_id,
    }
}

/// The name that a change asks for.
pub open spec fn asked_name(intent: GroupIntentView) -> Option<Seq<char>> {
    match intent {
        GroupIntentView::Create(request) => request.display_name,
        GroupIntentView::Replace(request) => request.display_name,
        GroupIntentView::Patch(patch) => patch.display_name,
    }
}

/// Whether a change names an id as a member.
pub open spec fn names(intent: GroupIntentView, id: Seq<char>) -> bool {
    match intent {
        GroupIntentView::Create(request) => request.members matches Some(ids) && ids.contains(id),
        GroupIntentView::Replace(request) => request.members matches Some(ids) && ids.contains(id),
        GroupIntentView::Patch(patch) => exists|k: int|
            0 <= k < patch.member_ops.len() && (#[trigger] patch.member_ops[k]).values().contains(
                id,
            ),
    }
}

proof fn lemma_named_ids(ops: Seq<MemberOpView>, id: Seq<char>)
    ensures
        named_ids(ops).contains(id) <==> exists|k: int|
            0 <= k < ops.len() && (#[trigger] ops[k]).values().contains(id),
    decreases ops.len(),
{
    if ops.len() > 0 {
        let rest = ops.drop_last();
        lemma_named_ids(rest, id);
        let first = named_ids(rest);
        let second = ops.last().values();
        let both = first + second;
        if both.contains(id) {
            let i = choose|i: int| 0 <= i < both.len() && both[i] == id;
            if i < first.len() {
                assert(first.contains(id));
                let k = choose|k: int|
                    0 <= k < rest.len() && (#[trigger] rest[k]).values().contains(id);
                assert(ops[k].values().contains(id));
            } else {
                assert(second[i - first.len()] == id);
                assert(ops[ops.len() - 1].values().contains(id));
            }
        }
        if exists|k: int| 0 <= k < ops.len() && (#[trigger] ops[k]).values().contains(id) {
            let k = choose|k: int|
                0 <= k < ops.len() && (#[trigger] ops[k]).values().contains(id);
            if k < rest.len() {
                assert(rest[k].values().contains(id));
                let i = choose|i: int| 0 <= i < first.len() && first[i] == id;
                assert(both[i] == id);
            } else {
                let i = choose|i: int| 0 <= i < second.len() && second[i] == id;
                assert(both[first.len() + i] == id);
            }
        }
    }
}

/// While a change is being checked, it looks up what it carries and nothing else: the
/// externalId it asks for, exactly the ids it names, whether the group opens collections, and
/// who is in it; and nothing that it knows already.
pub proof fn law_lookups_are_about_the_request(
    change: GroupChangeView,
    lookup: GroupLookupView,
    id: Seq<char>,
)
    requires
        change.verdict() == Err::<(), PendingView>(PendingView::Needs(lookup)),
    ensures
        match lookup {
            GroupLookupView::FindHolder(wanted) => asked_external_id(change.intent) == Some(wanted)
                && change.facts.holder is None,
            GroupLookupView::ResolveMembers(ids) => (ids.contains(id) <==> names(
                change.intent,
                id,
            )) && change.facts.known is None,
            GroupLookupView::HasCollections => change.facts.has_collections is None
                && !change.group.access_all,
            GroupLookupView::ListMembers => change.facts.members is None,
        },
{
    if let GroupIntentView::Patch(patch) = change.intent {
        lemma_named_ids(patch.member_ops, id);
    }
}

/// Whether one state of knowledge holds all of another.
pub open spec fn extends(more: GroupFactsView, less: GroupFactsView) -> bool {
    &&& less.known is Some ==> more.known == less.known
    &&& less.holder is Some ==> more.holder == less.holder
    &&& less.has_collections is Some ==> more.has_collections == less.has_collections
    &&& less.members is Some ==> more.members == less.members
}

/// A decision does not depend on what was not looked up: knowing more changes no decision that
/// could be taken on less.
pub proof fn law_decisions_stand(change: GroupChangeView, more: GroupFactsView)
    requires
        extends(more, change.facts),
        !(change.verdict() matches Err(PendingView::Needs(_))),
    ensures
        (GroupChangeView { facts: more, ..change }).verdict() == change.verdict(),
{
    if let GroupIntentView::Patch(patch) = change.intent {
        let ops = patch.member_ops;
        if named_ids(ops).len() == 0 {
            assert forall|k: int| 0 <= k < ops.len() implies (#[trigger] ops[k]).values().len()
                == 0 by {
                if ops[k].values().len() > 0 {
                    let id = ops[k].values()[0];
                    assert(ops[k].values().contains(id));
                    lemma_named_ids(ops, id);
                    assert(named_ids(ops).contains(id));
                }
            }
            assert forall|k: int| 0 <= k < ops.len() implies crate::group_members::op_resolves(
                #[trigger] ops[k],
                known_ids(more),
            ) && crate::group_members::op_resolves(ops[k], known_ids(change.facts)) by {
                assert(ops[k].values().len() == 0);
            }
        }
    }
}

// ---------------------------------------------------------------------------
// What is written
// ---------------------------------------------------------------------------

/// Whether a group is another one under the name and the externalId that a change asks for,
/// where it asks for them; a blank externalId is none.
pub open spec fn as_asked(group: GroupView, before: GroupView, intent: GroupIntentView) -> bool {
    &&& group.uuid == before.uuid
    &&& group.organizations_uuid == before.organizations_uuid
    &&& group.access_all == before.access_all
    &&& group.creation_date == before.creation_date
    &&& intent is Create ==> group.name == before.name && group.external_id == before.external_id
    &&& !(intent is Create) ==> {
        &&& group.name == (match asked_name(intent) {
            Some(name) => name,
            None => before.name,
        })
        &&& group.external_id == (match asked_external_id(intent) {
            Some(id) => if blank(id) {
                None
            } else {
                Some(id)
            },
            None => before.external_id,
        })
    }
}

proof fn lemma_target(change: GroupChangeView)
    ensures
        as_asked(change.target(), change.group, change.intent),
        change.target().revision_date == change.group.revision_date,
{
    if asked_external_id(change.intent) is Some {
        let id = asked_external_id(change.intent)->Some_0;
        assert(crate::text::is_blank_text(id) == blank(id));
    }
}

spec fn keeps_to_request(
    state: (GroupChangeView, GroupStepView),
    group: GroupView,
    intent: GroupIntentView,
    site: SiteView,
) -> bool {
    let change = state.0;
    let phase = change.phase;
    &&& change.intent == intent
    &&& change.site == site
    &&& phase is Checking ==> change.group == group
    &&& state.1 matches GroupStepView::Ask(GroupCommandView::Save(saved)) ==> phase is Saving
        && saved == change.group && saved.revision_date == group.revision_date && !(
    intent matches GroupIntentView::Patch(patch) && patch.display_name is None
        && patch.external_id is None)
    &&& phase is Saving || phase is Writing || phase is Logging || phase is Listing ==> as_asked(
        change.group,
        group,
        intent,
    )
    &&& state.1 matches GroupStepView::Ask(GroupCommandView::Log(event, id)) ==> phase is Logging
        && id == group.uuid && event == (if intent is Create {
        EventType::GroupCreated
    } else {
        EventType::GroupUpdated
    })
    &&& state.1 matches GroupStepView::Done(Ok(response)) ==> as_asked(change.group, group, intent)
        && (exists|ids: Seq<Seq<char>>|
        response.body == Some(#[trigger] scim_group(change.group, site, Some(ids)))) && (
    if intent is Create {
        response.status == 201 && response.location == Some(
            site.domain + "/scim/v2/"@ + site.org_uuid + "/"@ + "Groups"@ + "/"@ + group.uuid,
        )
    } else {
        response.status == 200 && response.location is None
    })
}

proof fn lemma_check_keeps_to_request(change: GroupChangeView)
    ensures
        keeps_to_request(change.check(), change.group, change.intent, change.site),
{
    lemma_target(change);
}

proof fn lemma_keeps_to_request(
    group: GroupView,
    intent: GroupIntentView,
    facts: GroupFactsView,
    site: SiteView,
    replies: Seq<GroupReplyView>,
)
    ensures
        keeps_to_request(
            run(change_of(group, intent, facts, site).check(), replies),
            group,
            intent,
            site,
        ),
    decreases replies.len(),
{
    let start = change_of(group, intent, facts, site).check();
    if replies.len() == 0 {
        lemma_check_keeps_to_request(change_of(group, intent, facts, site));
    } else {
        lemma_keeps_to_request(group, intent, facts, site, replies.drop_last());
        let before = run(start, replies.drop_last());
        let reply = replies.last();
        if before.1 is Ask {
            if before.0.phase is Checking {
                if let Some(facts) = crate::group_change::learned(before.0.facts, reply) {
                    lemma_check_keeps_to_request(GroupChangeView { facts, ..before.0 });
                }
            }
            if before.0.phase is Listing {
                if let GroupReplyView::Members(ids) = reply {
                    assert(before.0.resume(reply).1->Done_0->Ok_0.body == Some(
                        scim_group(before.0.group, site, Some(ids)),
                    ));
                }
            }
        }
    }
}

/// Whenever a change asks to write a group, it is the group as it was, under the name and the
/// externalId that were asked for; a patch on members alone does not write it. What is
/// recorded is a creation or an update of that group. An answer shows the group as it was
/// written: a creation as created at its place, anything else as it is.
pub proof fn law_groups_are_written_as_asked(
    group: GroupView,
    intent: GroupIntentView,
    facts: GroupFactsView,
    site: SiteView,
    replies: Seq<GroupReplyView>,
)
    ensures
        ({
            let end = run(change_of(group, intent, facts, site).check(), replies);
            match end.1 {
                GroupStepView::Ask(GroupCommandView::Save(saved)) => as_asked(saved, group, intent)
                    && saved.revision_date == group.revision_date && !(
                intent matches GroupIntentView::Patch(patch) && patch.display_name is None
                    && patch.external_id is None),
                GroupStepView::Ask(GroupCommandView::Log(event, id)) => id == group.uuid && event
                    == (if intent is Create {
                    EventType::GroupCreated
                } else {
                    EventType::GroupUpdated
                }),
                GroupStepView::Done(Ok(response)) => as_asked(end.0.group, group, intent) && (
                exists|ids: Seq<Seq<char>>|
                    response.body == Some(#[trigger] scim_group(end.0.group, site, Some(ids)))) && (
                if intent is Create {
                    response.status == 201 && response.location == Some(
                        site.domain + "/scim/v2/"@ + site.org_uuid + "/"@ + "Groups"@ + "/"@
                            + group.uuid,
                    )
                } else {
                    response.status == 200 && response.location is None
                }),
                _ => true,
            }
        }),
{
    lemma_keeps_to_request(group, intent, facts, site, replies);
}

/// A change is refused for what its checks refuse it for, asks for the fact that they need, and
/// is checked again with that fact. It goes from its checks to the write of the group, which a
/// patch on members alone leaves out, to the member writes, one after the other, to the record, to the member list,
/// and to the answer, which shows the date of the write and the members as they were listed.
/// A write that fails ends it with an internal error; one that another group's externalId
/// stands against, with a conflict.
pub proof fn law_changes_go_step_by_step(change: GroupChangeView, reply: GroupReplyView)
    ensures
        change.verdict() matches Err(PendingView::Needs(lookup)) ==> change.check().1
            == GroupStepView::Ask(GroupCommandView::Lookup(lookup)) && change.check().0
            == (GroupChangeView { phase: GroupPhase::Checking, ..change }),
        change.verdict() matches Err(PendingView::Refused(e)) ==> change.check().1
            == GroupStepView::Done(Err::<ScimResponseView, ScimErrorView>(e)),
        change.phase is Checking ==> (match crate::group_change::learned(change.facts, reply) {
            Some(facts) => change.resume(reply) == (GroupChangeView { facts, ..change }).check(),
            None => ends_with(change.resume(reply).1, 500, None, "Internal server error"@),
        }),
        change.verdict() is Ok ==> (match change.check().1 {
            GroupStepView::Ask(GroupCommandView::Save(_)) => change.check().0.phase is Saving,
            _ => change.intent matches GroupIntentView::Patch(patch) && patch.display_name is None
                && patch.external_id is None && change.check() == change.check().0.plan(),
        }),
        change.phase is Saving ==> (match reply {
            GroupReplyView::Written(date) => change.resume(reply) == (GroupChangeView {
                group: GroupView { revision_date: date, ..change.group },
                ..change
            }).plan(),
            GroupReplyView::Duplicate => ends_with(
                change.resume(reply).1,
                409,
                Some("uniqueness"@),
                "A group with this externalId already exists"@,
            ),
            _ => ends_with(change.resume(reply).1, 500, None, "Internal server error"@),
        }),
        change.phase is Writing && reply != GroupReplyView::Saved(true) ==> ends_with(
            change.resume(reply).1,
            500,
            None,
            "Internal server error"@,
        ),
        change.phase is Logging && reply is Noted ==> change.resume(reply).0.phase is Listing
            && change.resume(reply).1 == GroupStepView::Ask(
            GroupCommandView::Lookup(GroupLookupView::ListMembers),
        ),
        change.phase is Listing ==> (match reply {
            GroupReplyView::Members(ids) => change.resume(reply).1 matches GroupStepView::Done(
                Ok(response),
            ) && response.body == Some(scim_group(change.group, change.site, Some(ids))),
            _ => ends_with(change.resume(reply).1, 500, None, "Internal server error"@),
        }),
{
    if change.verdict() is Ok && !change.saves() {
        let ready = GroupChangeView { group: change.target(), ..change };
        assert(ready.plan() == change.check());
        assert(ready.plan().0.plan() == ready.plan());
    }
}

/// Whether a step ends a change with a refusal.
pub open spec fn ends_with(
    step: GroupStepView,
    status: int,
    scim_type: Option<Seq<char>>,
    detail: Seq<char>,
) -> bool {
    step matches GroupStepView::Done(result) && refusal(Some(result), status, scim_type, detail)
}

/// Each reply to a lookup is remembered as what it is, and nothing else changes; a reply that
/// is no answer to a lookup is none.
pub proof fn law_replies_are_remembered(
    facts: GroupFactsView,
    ids: Seq<Seq<char>>,
    found: Option<Seq<char>>,
    granted: bool,
    date: Seq<char>,
    saved: bool,
)
    ensures
        crate::group_change::learned(facts, GroupReplyView::Known(ids)) matches Some(next)
            && next.known == Some(ids) && next.holder == facts.holder && next.has_collections
            == facts.has_collections && next.members == facts.members,
        crate::group_change::learned(facts, GroupReplyView::Holder(found)) matches Some(next)
            && next.holder == Some(found) && next.known == facts.known && next.has_collections
            == facts.has_collections && next.members == facts.members,
        crate::group_change::learned(facts, GroupReplyView::Collections(granted)) matches Some(next)
            && next.has_collections == Some(granted) && next.known == facts.known && next.holder
            == facts.holder && next.members == facts.members,
        crate::group_change::learned(facts, GroupReplyView::Members(ids)) matches Some(next)
            && next.members == Some(ids) && next.known == facts.known && next.holder == facts.holder
            && next.has_collections == facts.has_collections,
        crate::group_change::learned(facts, GroupReplyView::Written(date)) is None,
        crate::group_change::learned(facts, GroupReplyView::Duplicate) is None,
        crate::group_change::learned(facts, GroupReplyView::Saved(saved)) is None,
        crate::group_change::learned(facts, GroupReplyView::Noted) is None,
{
}

/// The member writes of a change, made on the members that the group has, leave exactly the
/// members that it asks for: those of a new group, those of a replacement that lists any, and
/// those that the operations of a patch lead to, in order. A replacement that lists none
/// writes none.
pub proof fn law_member_plans_lead_to_what_was_asked(change: GroupChangeView)
    requires
        change.facts.members is Some,
        change.intent matches GroupIntentView::Patch(patch) ==> all_resolve(
            patch.member_ops,
            known_ids(change.facts),
        ) && forall|id: Seq<char>| #[trigger]
            change.facts.members->Some_0.contains(id) && named_ids(patch.member_ops).contains(id)
                ==> known_ids(change.facts).contains(id),
    ensures
        ({
            let current = change.facts.members->Some_0;
            let after = replay(current.to_set(), change.member_plan());
            match change.intent {
                GroupIntentView::Create(request) => after == (match request.members {
                    Some(ids) => ids,
                    None => Seq::empty(),
                }).to_set(),
                GroupIntentView::Replace(request) => match request.members {
                    Some(ids) => after == ids.to_set(),
                    None => change.member_plan().len() == 0,
                },
                GroupIntentView::Patch(patch) => after == members_after(
                    current,
                    patch.member_ops,
                ).to_set(),
            }
        }),
{
    let current = change.facts.members->Some_0;
    match change.intent {
        GroupIntentView::Create(request) => {
            law_replacement_is_exact(
                match request.members {
                    Some(ids) => ids,
                    None => Seq::empty(),
                },
                current,
            );
        },
        GroupIntentView::Replace(request) => {
            if let Some(ids) = request.members {
                law_replacement_is_exact(ids, current);
            }
        },
        GroupIntentView::Patch(patch) => {
            law_member_writes_take_effect(current, patch.member_ops, known_ids(change.facts));
        },
    }
}

/// A patch of one add writes a row for each id it lists, in order; one of one removal deletes
/// the row of each id it lists that is a member of the organization, in order, and passes over
/// the others.
pub proof fn law_single_operations_write(change: GroupChangeView, ids: Seq<Seq<char>>)
    requires
        change.facts.members is Some,
        change.facts.known is Some,
    ensures
        change.intent matches GroupIntentView::Patch(patch) ==> (patch.member_ops == seq![
            MemberOpView::Add(ids),
        ] ==> change.member_plan() == ids.map_values(
            |id: Seq<char>| MemberWriteView::Add(id),
        )) && (patch.member_ops == seq![MemberOpView::Remove(ids)] ==> change.member_plan()
            == ids.filter(
            |id: Seq<char>| change.facts.known->Some_0.contains(id),
        ).map_values(|id: Seq<char>| MemberWriteView::Remove(id))),
{
    reveal_with_fuel(crate::group_members::ops_writes, 2);
    if let GroupIntentView::Patch(patch) = change.intent {
        let ops = patch.member_ops;
        let known = change.facts.known->Some_0;
        if ops == seq![MemberOpView::Add(ids)] {
            assert(ops.drop_last() =~= Seq::empty());
            assert(change.member_plan() =~= ids.map_values(
                |id: Seq<char>| MemberWriteView::Add(id),
            ));
        }
        if ops == seq![MemberOpView::Remove(ids)] {
            assert(ops.drop_last() =~= Seq::empty());
            lemma_kept_is_filtered(ids, known);
            assert(change.member_plan() =~= ids.filter(
                |id: Seq<char>| change.facts.known->Some_0.contains(id),
            ).map_values(|id: Seq<char>| MemberWriteView::Remove(id)));
        }
    }
}

proof fn lemma_kept_is_filtered(ids: Seq<Seq<char>>, known: Seq<Seq<char>>)
    ensures
        crate::group_members::kept(ids, known) == ids.filter(
            |id: Seq<char>| known.contains(id),
        ),
    decreases ids.len(),
{
    reveal(Seq::filter);
    if ids.len() > 0 {
        lemma_kept_is_filtered(ids.drop_last(), known);
    }
}

/// Nobody who was in a group leaves it through an add, and everybody it lists is in it then,
/// whether the operation has a path or carries the members in an object; whoever else is in
/// the group was in it before.
pub proof fn law_adds_only_add(
    body: crate::patch::PatchOpView,
    op: Seq<char>,
    path: Seq<char>,
    value: Option<JsonView>,
    ids: Seq<Seq<char>>,
    current: Seq<Seq<char>>,
    id: Seq<char>,
)
    requires
        same_ignoring_case(op, "add"@),
        same_ignoring_case(path, "members"@),
        lists_ids(value, ids),
        asks_for(body, op, Some(path), value) || asks_for(
            body,
            op,
            None,
            Some(
                JsonView::Object(
                    seq![crate::json::MemberView { name: path, value: value->Some_0 }],
                ),
            ),
        ),
    ensures
        crate::patch::group_patch(body) matches Ok(patch) && (members_after(
            current,
            patch.member_ops,
        ).contains(id) <==> current.contains(id) || ids.contains(id)),
{
    let member = crate::json::MemberView { name: path, value: value->Some_0 };
    let members = seq![member];
    let plain = crate::patch::PatchOperationView { op, path: Some(path), value };
    let pathed = crate::patch::PatchOpView { operations: seq![plain], ..body };
    law_group_members_are_changed(pathed, op, path, value, ids);
    if body.operations != pathed.operations {
        assert(crate::patch_meaning::one_by_one(op, members) =~= seq![plain]);
        reveal_strlit("add");
        reveal_strlit("remove");
        assert(crate::text::ascii_lowercase("add"@).len() == 3);
        assert(crate::text::ascii_lowercase("remove"@).len() == 6);
        assert(members[0] == member);
        crate::patch_meaning::law_group_pathless_is_member_by_member(body, pathed, op, members);
    } else {
        assert(body == pathed);
    }
    let ops = crate::patch::group_patch(body)->Ok_0.member_ops;
    assert(ops =~= Seq::<MemberOpView>::empty().push(MemberOpView::Add(ids)));
    crate::group_laws::law_member_operations(
        current,
        Seq::empty(),
        MemberOpView::Add(ids),
        id,
    );
}

// ---------------------------------------------------------------------------
// Creating and deleting
// ---------------------------------------------------------------------------

/// A new group has the name and the externalId that were asked for, belongs to the
/// organization of the request, opens nothing, and was written when it was created. Its name
/// is required, and limited.
pub proof fn law_new_groups_are_as_asked(
    uuid: Seq<char>,
    site: SiteView,
    display_name: Option<Seq<char>>,
    external_id: Option<Seq<char>>,
    now: Seq<char>,
)
    ensures
        new_name(display_name) matches Ok(name) ==> {
            let group = new_group(uuid, site, name, external_id, now);
            &&& display_name == Some(name)
            &&& group.uuid == uuid
            &&& group.organizations_uuid == site.org_uuid
            &&& group.name == name
            &&& !group.access_all
            &&& group.creation_date == now
            &&& group.revision_date == now
            &&& group.external_id == (match external_id {
                Some(id) => if blank(id) {
                    None
                } else {
                    Some(id)
                },
                None => None,
            })
        },
        new_name(display_name) is Ok <==> display_name is Some && !blank(display_name->Some_0)
            && display_name->Some_0.len() <= 100,
        display_name is None || blank(display_name->Some_0) ==> refused(
            new_name(display_name),
            "invalidValue"@,
            "displayName is required"@,
        ),
        display_name is Some && !blank(display_name->Some_0) && display_name->Some_0.len() > 100
            ==> refused(new_name(display_name), "invalidValue"@, at_most("displayName"@, 100)),
{
    if external_id is Some {
        assert(crate::text::is_blank_text(external_id->Some_0) == blank(external_id->Some_0));
    }
    if display_name is Some {
        assert(crate::text::is_blank_text(display_name->Some_0) == blank(display_name->Some_0));
    }
}

/// What the deletion of a group asks for, and how it ends: so many commands of it, in a
/// database that grants the group collections or not, and deletes it or fails to.
pub open spec fn play_deletion(
    state: (GroupDeletionView, DeletionStepView),
    granted: bool,
    deletes: bool,
    commands: nat,
) -> (Seq<DeletionCommandView>, Option<Result<ScimResponseView, ScimErrorView>>)
    decreases commands,
{
    match state.1 {
        DeletionStepView::Done(answer) => (Seq::empty(), Some(answer)),
        DeletionStepView::Ask(command) => if commands == 0 {
            (Seq::empty(), None)
        } else {
            let reply = match command {
                DeletionCommandView::HasCollections => DeletionReply::Collections(granted),
                DeletionCommandView::Delete(_) => DeletionReply::Deleted(deletes),
                DeletionCommandView::Log(_, _) => DeletionReply::Noted,
            };
            let rest = play_deletion(
                state.0.resume(reply),
                granted,
                deletes,
                (commands - 1) as nat,
            );
            (seq![command] + rest.0, rest.1)
        },
    }
}

/// A group is deleted, recorded, and answered without content exactly where it could be added
/// to; otherwise the deletion is refused. Whether it opens collections is looked up only where
/// that decides. A deletion that fails is not recorded.
pub proof fn law_deletions_of_groups(group: GroupView, granted: bool, deletes: bool)
    ensures
        ({
            let start = (GroupDeletionView { group, phase: DeletionPhase::Finished }).decide(
                GroupFactsView { known: None, holder: None, has_collections: None, members: None },
            );
            let (asked, end) = play_deletion(start, granted, deletes, 4);
            let asks = !group.access_all && group.external_id is None;
            let look = if asks {
                seq![DeletionCommandView::HasCollections]
            } else {
                Seq::empty()
            };
            if group.access_all || (group.external_id is None && granted) {
                &&& asked == look
                &&& refusal(
                    end,
                    400,
                    Some("mutability"@),
                    "This group grants collection access and is not managed by SCIM (no externalId, or it grants access to all collections); it cannot be deleted through SCIM. Delete it in the web vault"@,
                )
            } else if !deletes {
                &&& asked == look + seq![DeletionCommandView::Delete(group)]
                &&& refusal(end, 500, None, "Internal server error"@)
            } else {
                &&& asked == look + seq![
                    DeletionCommandView::Delete(group),
                    DeletionCommandView::Log(EventType::GroupDeleted, group.uuid),
                ]
                &&& end matches Some(Ok(response)) && response.status == 204
                    && response.body is None && response.location is None
            }
        }),
{
    reveal_with_fuel(play_deletion, 5);
    let start = (GroupDeletionView { group, phase: DeletionPhase::Finished }).decide(
        GroupFactsView { known: None, holder: None, has_collections: None, members: None },
    );
    let asked = play_deletion(start, granted, deletes, 4).0;
    let look = if !group.access_all && group.external_id is None {
        seq![DeletionCommandView::HasCollections]
    } else {
        Seq::empty()
    };
    let delete = DeletionCommandView::Delete(group);
    let log = DeletionCommandView::Log(EventType::GroupDeleted, group.uuid);
    if group.access_all || (group.external_id is None && granted) {
        assert(asked =~= look);
    } else if !deletes {
        assert(asked =~= look + seq![delete]);
    } else {
        assert(asked =~= look + seq![delete, log]);
    }
}

} // verus!
