//! What holds of every change of a group.

use vstd::prelude::*;

use crate::error::ScimErrorView;
use crate::group::{fresh, lemma_fresh, stored_group_id, GroupView};
use crate::group_change::{
    learned, updated, DeletionCommandView, DeletionReply, DeletionStepView, GroupChangeView,
    GroupCommandView, GroupDeletionView, GroupIntentView, GroupReplyView, GroupStepView,
    ScimGroupRequestView,
};
use crate::group_members::{
    additions, additions_check, adds, all_resolve, any_adds, difference, kept, known_ids, member_ops_check,
    members_after, members_after_op, named_ids, op_resolves, op_writes, ops_writes, removals,
    MemberWriteView,
};
use crate::groups::{
    all_known, confers_access, count_limit, external_id_change, group_id_taken, may_add,
    name_change, resolution, unmanaged_add, unresolvable, GroupFactsView, PendingView,
    UNMANAGED_ADD,
};
use crate::patch::MemberOpView;

verus! {

/// The member set after a list of writes.
pub open spec fn replay(members: Set<Seq<char>>, writes: Seq<MemberWriteView>) -> Set<Seq<char>>
    decreases writes.len(),
{
    if writes.len() == 0 {
        members
    } else {
        let earlier = replay(members, writes.drop_last());
        match writes.last() {
            MemberWriteView::Add(id) => earlier.insert(id),
            MemberWriteView::Remove(id) => earlier.remove(id),
        }
    }
}

/// Whether any of a list of writes adds a member.
pub open spec fn has_addition(writes: Seq<MemberWriteView>) -> bool {
    exists|i: int| 0 <= i < writes.len() && (#[trigger] writes[i]) is Add
}

proof fn lemma_replay_append(
    members: Set<Seq<char>>,
    first: Seq<MemberWriteView>,
    second: Seq<MemberWriteView>,
)
    ensures
        replay(members, first + second) == replay(replay(members, first), second),
    decreases second.len(),
{
    if second.len() == 0 {
        assert(first + second =~= first);
    } else {
        lemma_replay_append(members, first, second.drop_last());
        assert((first + second).drop_last() =~= first + second.drop_last());
        assert((first + second).last() == second.last());
    }
}

proof fn lemma_replay_additions(members: Set<Seq<char>>, ids: Seq<Seq<char>>)
    ensures
        forall|id: Seq<char>|
            #[trigger] replay(members, additions(ids)).contains(id) <==> members.contains(id)
                || ids.contains(id),
    decreases ids.len(),
{
    if ids.len() > 0 {
        let rest = ids.drop_last();
        lemma_replay_additions(members, rest);
        let before = replay(members, additions(rest));
        assert(additions(ids).drop_last() =~= additions(rest));
        assert(additions(ids).last() == MemberWriteView::Add(ids.last()));
        assert(replay(members, additions(ids)) == before.insert(ids.last()));
        assert forall|id: Seq<char>|
            #[trigger] replay(members, additions(ids)).contains(id) <==> members.contains(id)
                || ids.contains(id) by {
            lemma_contains_last(ids, id);
            assert(before.contains(id) <==> members.contains(id) || rest.contains(id));
        }
    }
}

proof fn lemma_replay_removals(members: Set<Seq<char>>, ids: Seq<Seq<char>>)
    ensures
        forall|id: Seq<char>|
            #[trigger] replay(members, removals(ids)).contains(id) <==> members.contains(id)
                && !ids.contains(id),
    decreases ids.len(),
{
    if ids.len() > 0 {
        let rest = ids.drop_last();
        lemma_replay_removals(members, rest);
        let before = replay(members, removals(rest));
        assert(removals(ids).drop_last() =~= removals(rest));
        assert(removals(ids).last() == MemberWriteView::Remove(ids.last()));
        assert(replay(members, removals(ids)) == before.remove(ids.last()));
        assert forall|id: Seq<char>|
            #[trigger] replay(members, removals(ids)).contains(id) <==> members.contains(id)
                && !ids.contains(id) by {
            lemma_contains_last(ids, id);
            assert(before.contains(id) <==> members.contains(id) && !rest.contains(id));
        }
    }
}

proof fn lemma_contains_last(ids: Seq<Seq<char>>, id: Seq<char>)
    requires
        ids.len() > 0,
    ensures
        ids.contains(id) <==> ids.drop_last().contains(id) || id == ids.last(),
{
    let rest = ids.drop_last();
    if rest.contains(id) {
        let i = choose|i: int| 0 <= i < rest.len() && rest[i] == id;
        assert(ids[i] == id);
    }
    if ids.contains(id) && id != ids.last() {
        let i = choose|i: int| 0 <= i < ids.len() && ids[i] == id;
        assert(rest[i] == id);
    }
    assert(ids[ids.len() - 1] == ids.last());
}

proof fn lemma_kept(values: Seq<Seq<char>>, known: Seq<Seq<char>>)
    ensures
        forall|id: Seq<char>|
            #[trigger] kept(values, known).contains(id) <==> values.contains(id) && known.contains(
                id,
            ),
    decreases values.len(),
{
    if values.len() > 0 {
        let rest = values.drop_last();
        let earlier = kept(rest, known);
        lemma_kept(rest, known);
        assert forall|id: Seq<char>|
            #[trigger] kept(values, known).contains(id) <==> values.contains(id) && known.contains(
                id,
            ) by {
            lemma_contains_last(values, id);
            if known.contains(values.last()) {
                let whole = earlier.push(values.last());
                assert(kept(values, known) == whole);
                assert(whole.drop_last() =~= earlier);
                lemma_contains_last(whole, id);
            }
        }
    }
}

/// Replacing the members of a group leaves exactly the members that were asked for.
pub proof fn law_replacement_is_exact(wanted: Seq<Seq<char>>, current: Seq<Seq<char>>)
    ensures
        replay(current.to_set(), difference(wanted, current)) == wanted.to_set(),
{
    let added = fresh(wanted, current);
    let removed = fresh(current, wanted);
    lemma_fresh(wanted, current);
    lemma_fresh(current, wanted);
    lemma_replay_append(current.to_set(), additions(added), removals(removed));
    lemma_replay_additions(current.to_set(), added);
    let middle = replay(current.to_set(), additions(added));
    lemma_replay_removals(middle, removed);
    assert forall|id: Seq<char>|
        replay(current.to_set(), difference(wanted, current)).contains(id)
            <==> wanted.to_set().contains(id) by {
        assert(middle.contains(id) <==> current.contains(id) || added.contains(id));
        assert(added.contains(id) <==> wanted.contains(id) && !current.contains(id));
        assert(removed.contains(id) <==> current.contains(id) && !wanted.contains(id));
    }
    assert(replay(current.to_set(), difference(wanted, current)) =~= wanted.to_set());
}

/// Replacing the members of a group touches only what changes: it inserts nobody who is
/// already in the group, deletes nobody who stays, and writes no row twice.
pub proof fn law_replacement_touches_only_changes(
    wanted: Seq<Seq<char>>,
    current: Seq<Seq<char>>,
    i: int,
)
    requires
        0 <= i < difference(wanted, current).len(),
    ensures
        match difference(wanted, current)[i] {
            MemberWriteView::Add(id) => wanted.contains(id) && !current.contains(id),
            MemberWriteView::Remove(id) => current.contains(id) && !wanted.contains(id),
        },
        fresh(wanted, current).no_duplicates(),
        fresh(current, wanted).no_duplicates(),
{
    let added = fresh(wanted, current);
    let removed = fresh(current, wanted);
    lemma_fresh(wanted, current);
    lemma_fresh(current, wanted);
    if i < added.len() {
        assert(added.contains(added[i]));
    } else {
        assert(removed.contains(removed[i - added.len()]));
    }
}

proof fn lemma_members_after_op(current: Seq<Seq<char>>, op: MemberOpView, id: Seq<char>)
    ensures
        members_after_op(current, op).contains(id) <==> match op {
            MemberOpView::Add(values) => current.contains(id) || values.contains(id),
            MemberOpView::Remove(values) => current.contains(id) && !values.contains(id),
            MemberOpView::Replace(values) => values.contains(id),
        },
{
    match op {
        MemberOpView::Add(values) => {
            let added = fresh(values, current);
            lemma_fresh(values, current);
            let whole = current + added;
            if current.contains(id) {
                let i = choose|i: int| 0 <= i < current.len() && current[i] == id;
                assert(whole[i] == id);
            }
            if added.contains(id) {
                let i = choose|i: int| 0 <= i < added.len() && added[i] == id;
                assert(whole[current.len() + i] == id);
            }
            if whole.contains(id) {
                let i = choose|i: int| 0 <= i < whole.len() && whole[i] == id;
                if i < current.len() {
                    assert(current[i] == id);
                } else {
                    assert(added[i - current.len()] == id);
                }
            }
            assert(added.contains(id) <==> values.contains(id) && !current.contains(id));
        },
        MemberOpView::Remove(values) => {
            lemma_fresh(current, values);
        },
        MemberOpView::Replace(values) => {
            lemma_fresh(values, Seq::empty());
            assert(!Seq::<Seq<char>>::empty().contains(id));
        },
    }
}

// A member of the group that the operations name is known to be one of the organization.
spec fn covered(current: Seq<Seq<char>>, named: Seq<Seq<char>>, known: Seq<Seq<char>>) -> bool {
    forall|id: Seq<char>|
        #[trigger] current.contains(id) && named.contains(id) ==> known.contains(id)
}

proof fn lemma_named_ids_grow(ops: Seq<MemberOpView>, id: Seq<char>)
    requires
        ops.len() > 0,
    ensures
        named_ids(ops.drop_last()).contains(id) ==> named_ids(ops).contains(id),
        ops.last().values().contains(id) ==> named_ids(ops).contains(id),
{
    let rest = named_ids(ops.drop_last());
    let last = ops.last().values();
    if rest.contains(id) {
        let i = choose|i: int| 0 <= i < rest.len() && rest[i] == id;
        assert(named_ids(ops)[i] == id);
    }
    if last.contains(id) {
        let i = choose|i: int| 0 <= i < last.len() && last[i] == id;
        assert(named_ids(ops)[rest.len() + i] == id);
    }
}

proof fn lemma_later_members_are_known(
    current: Seq<Seq<char>>,
    ops: Seq<MemberOpView>,
    known: Seq<Seq<char>>,
    named: Seq<Seq<char>>,
)
    requires
        all_resolve(ops, known),
        covered(current, named, known),
        forall|id: Seq<char>| #[trigger] named_ids(ops).contains(id) ==> named.contains(id),
    ensures
        covered(members_after(current, ops), named, known),
    decreases ops.len(),
{
    if ops.len() > 0 {
        let rest = ops.drop_last();
        let before = members_after(current, rest);
        assert forall|i: int| 0 <= i < rest.len() implies op_resolves(#[trigger] rest[i], known) by {
            assert(rest[i] == ops[i]);
        }
        assert forall|id: Seq<char>| #[trigger] named_ids(rest).contains(id) implies named.contains(
            id,
        ) by {
            lemma_named_ids_grow(ops, id);
        }
        lemma_later_members_are_known(current, rest, known, named);
        assert(op_resolves(ops[ops.len() - 1], known));
        assert forall|id: Seq<char>| #[trigger]
            members_after(current, ops).contains(id) && named.contains(id) implies known.contains(
            id,
        ) by {
            lemma_members_after_op(before, ops.last(), id);
            let values = ops.last().values();
            if !(ops.last() is Remove) && values.contains(id) {
                let i = choose|i: int| 0 <= i < values.len() && values[i] == id;
                assert(known.contains(values[i]));
            }
        }
    }
}

proof fn lemma_op_writes_take_effect(
    members: Set<Seq<char>>,
    current: Seq<Seq<char>>,
    op: MemberOpView,
    known: Seq<Seq<char>>,
)
    requires
        members == current.to_set(),
        forall|id: Seq<char>|
            #[trigger] current.contains(id) && op.values().contains(id) ==> known.contains(id),
    ensures
        replay(members, op_writes(current, op, known)) == members_after_op(current, op).to_set(),
{
    match op {
        MemberOpView::Add(values) => {
            lemma_replay_additions(members, values);
        },
        MemberOpView::Remove(values) => {
            lemma_kept(values, known);
            lemma_replay_removals(members, kept(values, known));
        },
        MemberOpView::Replace(values) => {
            law_replacement_is_exact(values, current);
        },
    }
    let after = replay(members, op_writes(current, op, known));
    assert forall|id: Seq<char>| after.contains(id) <==> members_after_op(
        current,
        op,
    ).to_set().contains(id) by {
        lemma_members_after_op(current, op, id);
        assert(members.contains(id) <==> current.contains(id));
        if op is Remove {
            assert(kept(op.values(), known).contains(id) <==> op.values().contains(id)
                && known.contains(id));
        }
        if op is Replace {
            assert(op.values().to_set().contains(id) <==> op.values().contains(id));
        }
    }
    assert(after =~= members_after_op(current, op).to_set());
}

proof fn lemma_ops_writes_take_effect(
    current: Seq<Seq<char>>,
    ops: Seq<MemberOpView>,
    known: Seq<Seq<char>>,
    named: Seq<Seq<char>>,
)
    requires
        all_resolve(ops, known),
        covered(current, named, known),
        forall|id: Seq<char>| #[trigger] named_ids(ops).contains(id) ==> named.contains(id),
    ensures
        replay(current.to_set(), ops_writes(current, ops, known)) == members_after(
            current,
            ops,
        ).to_set(),
    decreases ops.len(),
{
    if ops.len() > 0 {
        let rest = ops.drop_last();
        let before = members_after(current, rest);
        assert forall|i: int| 0 <= i < rest.len() implies op_resolves(#[trigger] rest[i], known) by {
            assert(rest[i] == ops[i]);
        }
        assert forall|id: Seq<char>| #[trigger] named_ids(rest).contains(id) implies named.contains(
            id,
        ) by {
            lemma_named_ids_grow(ops, id);
        }
        lemma_ops_writes_take_effect(current, rest, known, named);
        lemma_later_members_are_known(current, rest, known, named);
        assert forall|id: Seq<char>| #[trigger]
            before.contains(id) && ops.last().values().contains(id) implies known.contains(id) by {
            lemma_named_ids_grow(ops, id);
            assert(named_ids(ops).contains(id));
        }
        lemma_replay_append(
            current.to_set(),
            ops_writes(current, rest, known),
            op_writes(before, ops.last(), known),
        );
        lemma_op_writes_take_effect(
            replay(current.to_set(), ops_writes(current, rest, known)),
            before,
            ops.last(),
            known,
        );
    }
}

/// The writes of a patch have the effect of its member operations, taken in order: a
/// removal followed by an addition of the same member keeps it, the other way round
/// drops it, and a replacement does not swallow what comes after it. The members of a
/// group are members of its organization.
pub proof fn law_member_writes_take_effect(
    current: Seq<Seq<char>>,
    ops: Seq<MemberOpView>,
    known: Seq<Seq<char>>,
)
    requires
        all_resolve(ops, known),
        forall|id: Seq<char>|
            #[trigger] current.contains(id) && named_ids(ops).contains(id) ==> known.contains(id),
    ensures
        replay(current.to_set(), ops_writes(current, ops, known)) == members_after(
            current,
            ops,
        ).to_set(),
{
    lemma_ops_writes_take_effect(current, ops, known, named_ids(ops));
}

/// What each member operation does to the member set.
pub proof fn law_member_operations(
    current: Seq<Seq<char>>,
    ops: Seq<MemberOpView>,
    op: MemberOpView,
    id: Seq<char>,
)
    ensures
        members_after(current, ops.push(op)).contains(id) <==> match op {
            MemberOpView::Add(values) => members_after(current, ops).contains(id)
                || values.contains(id),
            MemberOpView::Remove(values) => members_after(current, ops).contains(id)
                && !values.contains(id),
            MemberOpView::Replace(values) => values.contains(id),
        },
{
    assert(ops.push(op).drop_last() =~= ops);
    lemma_members_after_op(members_after(current, ops), op, id);
}

proof fn lemma_additions_are_counted(
    current: Seq<Seq<char>>,
    ops: Seq<MemberOpView>,
    known: Seq<Seq<char>>,
)
    requires
        has_addition(ops_writes(current, ops, known)),
    ensures
        any_adds(current, ops),
    decreases ops.len(),
{
    let writes = ops_writes(current, ops, known);
    let i = choose|i: int| 0 <= i < writes.len() && (#[trigger] writes[i]) is Add;
    assert(ops.len() > 0);
    let first = ops_writes(current, ops.drop_last(), known);
    let before = members_after(current, ops.drop_last());
    let second = op_writes(before, ops.last(), known);
    if i < first.len() {
        assert(first[i] is Add);
        lemma_additions_are_counted(current, ops.drop_last(), known);
    } else {
        assert(second[i - first.len()] is Add);
        assert(adds(before, ops.last()));
    }
}

/// What a member operation is refused for at its turn: a replacement for an id that does not
/// resolve, and then for an addition; an addition for its guard, and then for an id that does
/// not resolve; a removal for nothing.
pub open spec fn op_check(group: GroupView, op: MemberOpView, facts: GroupFactsView) -> Result<
    (),
    PendingView,
> {
    match op {
        MemberOpView::Replace(values) => match resolution(values, facts) {
            Ok(_) => additions_check(group, values, facts),
            Err(p) => Err(p),
        },
        MemberOpView::Add(values) => if values.len() > 0 {
            match unmanaged_add(group, facts) {
                Ok(_) => resolution(values, facts),
                Err(p) => Err(p),
            }
        } else {
            Ok(())
        },
        MemberOpView::Remove(values) => Ok(()),
    }
}

/// Whether a list of member operations would go through one after the other, each checked on
/// the members that those before it leave.
pub open spec fn goes_through(
    group: GroupView,
    ops: Seq<MemberOpView>,
    facts: GroupFactsView,
) -> bool
    decreases ops.len(),
{
    ops.len() > 0 ==> goes_through(group, ops.drop_last(), facts) && op_check(
        group,
        ops.last(),
        GroupFactsView {
            members: Some(members_after(facts.members->Some_0, ops.drop_last())),
            ..facts
        },
    ) is Ok
}

proof fn lemma_goes_through(group: GroupView, ops: Seq<MemberOpView>, facts: GroupFactsView)
    requires
        facts.members is Some,
        facts.known is Some,
    ensures
        goes_through(group, ops, facts) <==> all_resolve(ops, known_ids(facts)) && (any_adds(
            facts.members->Some_0,
            ops,
        ) ==> unmanaged_add(group, facts) is Ok),
    decreases ops.len(),
{
    if ops.len() > 0 {
        let rest = ops.drop_last();
        let known = known_ids(facts);
        lemma_goes_through(group, rest, facts);
        let at_turn = GroupFactsView {
            members: Some(members_after(facts.members->Some_0, rest)),
            ..facts
        };
        assert(unmanaged_add(group, at_turn) == unmanaged_add(group, facts));
        assert(resolution(ops.last().values(), at_turn) is Ok <==> all_known(
            ops.last().values(),
            known,
        ));
        assert(all_resolve(ops, known) <==> all_resolve(rest, known) && op_resolves(
            ops.last(),
            known,
        )) by {
            assert(forall|i: int| 0 <= i < rest.len() ==> rest[i] == ops[i]);
            if all_resolve(ops, known) {
                assert(op_resolves(ops[ops.len() - 1], known));
                assert forall|i: int| 0 <= i < rest.len() implies op_resolves(
                    #[trigger] rest[i],
                    known,
                ) by {
                    assert(op_resolves(ops[i], known));
                }
            }
            if all_resolve(rest, known) && op_resolves(ops.last(), known) {
                assert forall|i: int| 0 <= i < ops.len() implies op_resolves(
                    #[trigger] ops[i],
                    known,
                ) by {
                    if i < rest.len() {
                        assert(op_resolves(rest[i], known));
                    }
                }
            }
        }
    }
}

/// The check of a patch's member operations is neither laxer nor stricter than applying them:
/// it passes exactly where each of them would go through at its turn, on the group as the
/// patch has left it by then.
pub proof fn law_precheck_agrees_with_the_operations(
    group: GroupView,
    display_name: Option<Seq<char>>,
    external_id: Option<Seq<char>>,
    ops: Seq<MemberOpView>,
    facts: GroupFactsView,
)
    requires
        facts.members is Some,
        facts.known is Some,
        facts.has_collections is Some,
        external_id_change(group, external_id, facts) is Ok,
    ensures
        member_ops_check(group, ops, facts) is Ok <==> goes_through(
            updated(group, display_name, external_id),
            ops,
            facts,
        ),
        member_ops_check(group, ops, facts) is Ok <==> goes_through(group, ops, facts),
{
    let later = updated(group, display_name, external_id);
    lemma_goes_through(group, ops, facts);
    lemma_goes_through(later, ops, facts);
    assert(unmanaged_add(later, facts) is Ok <==> unmanaged_add(group, facts) is Ok);
}

/// A group that SCIM does not manage gains no members, neither by a patch nor by a
/// replacement.
pub proof fn law_unmanaged_groups_gain_no_members(
    group: GroupView,
    ops: Seq<MemberOpView>,
    wanted: Seq<Seq<char>>,
    facts: GroupFactsView,
)
    requires
        may_add(group, facts) == Ok::<bool, PendingView>(false),
    ensures
        member_ops_check(group, ops, facts) is Ok && facts.members is Some ==> !has_addition(
            ops_writes(facts.members->Some_0, ops, known_ids(facts)),
        ),
        additions_check(group, wanted, facts) is Ok ==> !has_addition(
            difference(wanted, facts.members->Some_0),
        ),
{
    if member_ops_check(group, ops, facts) is Ok && facts.members is Some {
        if has_addition(ops_writes(facts.members->Some_0, ops, known_ids(facts))) {
            lemma_additions_are_counted(facts.members->Some_0, ops, known_ids(facts));
        }
    }
    if additions_check(group, wanted, facts) is Ok {
        let current = facts.members->Some_0;
        let writes = difference(wanted, current);
        if has_addition(writes) {
            let i = choose|i: int| 0 <= i < writes.len() && (#[trigger] writes[i]) is Add;
            assert(i < fresh(wanted, current).len());
        }
    }
}

proof fn lemma_removals_add_nothing(current: Seq<Seq<char>>, ops: Seq<MemberOpView>)
    requires
        forall|i: int| 0 <= i < ops.len() ==> (#[trigger] ops[i]) is Remove,
    ensures
        !any_adds(current, ops),
    decreases ops.len(),
{
    if ops.len() > 0 {
        let rest = ops.drop_last();
        assert forall|i: int| 0 <= i < rest.len() implies (#[trigger] rest[i]) is Remove by {
            assert(rest[i] == ops[i]);
        }
        lemma_removals_add_nothing(current, rest);
        assert(ops[ops.len() - 1] is Remove);
    }
}

/// Removals always proceed, whoever manages the group: a patch that only removes is
/// never refused for its member operations, and neither is a replacement that only
/// removes.
pub proof fn law_removals_always_proceed(
    group: GroupView,
    ops: Seq<MemberOpView>,
    wanted: Seq<Seq<char>>,
    facts: GroupFactsView,
)
    requires
        forall|i: int| 0 <= i < ops.len() ==> (#[trigger] ops[i]) is Remove,
        facts.members is Some,
        facts.known is Some,
        forall|id: Seq<char>| #[trigger] wanted.contains(id) ==> facts.members->Some_0.contains(id),
    ensures
        member_ops_check(group, ops, facts) is Ok,
        additions_check(group, wanted, facts) is Ok,
{
    let current = facts.members->Some_0;
    lemma_removals_add_nothing(current, ops);
    assert forall|i: int| 0 <= i < ops.len() implies op_resolves(
        #[trigger] ops[i],
        known_ids(facts),
    ) by {}
    lemma_fresh(wanted, current);
    if fresh(wanted, current).len() > 0 {
        assert(fresh(wanted, current).contains(fresh(wanted, current)[0]));
    }
}

/// A group that opens everything is never added to, and never deleted, whatever its
/// externalId.
pub proof fn law_access_to_everything_is_off_limits(group: GroupView, facts: GroupFactsView)
    requires
        group.access_all,
    ensures
        may_add(group, facts) == Ok::<bool, PendingView>(false),
{
}

/// A group that confers access cannot be made SCIM's own by setting its externalId, and
/// cannot be put out of SCIM's reach by clearing it.
pub proof fn law_ownership_of_access_does_not_change_hands(
    group: GroupView,
    external_id: Seq<char>,
    facts: GroupFactsView,
)
    requires
        confers_access(group, facts) == Ok::<bool, PendingView>(true),
        external_id_change(group, Some(external_id), facts) is Ok,
    ensures
        stored_group_id(Some(external_id)) is Some <==> group.external_id is Some,
{
}

/// The guard on additions, passed on the group as the database has it, is still passed
/// once the group carries the name and the externalId of the same request: a patch
/// never refuses its own members.
pub proof fn law_guard_survives_the_patch(
    group: GroupView,
    display_name: Option<Seq<char>>,
    external_id: Option<Seq<char>>,
    facts: GroupFactsView,
)
    requires
        external_id_change(group, external_id, facts) is Ok,
        may_add(group, facts) == Ok::<bool, PendingView>(true),
        facts.has_collections is Some,
    ensures
        may_add(updated(group, display_name, external_id), facts) == Ok::<bool, PendingView>(true),
{
}

/// Everything that a patch can be refused for is refused before its first write: later
/// on it ends with an internal error, or with the conflict of an externalId that a
/// concurrent request took.
pub proof fn law_patch_refusals_come_first(
    change: GroupChangeView,
    reply: GroupReplyView,
    e: ScimErrorView,
)
    requires
        change.intent is Patch,
        !(change.phase is Checking),
        change.resume(reply).1 == GroupStepView::Done(Err(e)),
    ensures
        e == ScimErrorView::internal() || e == group_id_taken(),
{
}

/// Everything that a replacement of a group can be refused for is refused before its first
/// write: later on it ends with an internal error, or with the conflict of an externalId
/// that a concurrent request took.
pub proof fn law_replacement_refusals_come_first(
    change: GroupChangeView,
    reply: GroupReplyView,
    e: ScimErrorView,
)
    requires
        change.intent is Replace,
        !(change.phase is Checking),
        change.resume(reply).1 == GroupStepView::Done(Err(e)),
    ensures
        e == ScimErrorView::internal() || e == group_id_taken(),
{
}

/// A replacement that would add someone to a group that SCIM does not manage is refused at
/// once, a new name in the same request or not.
pub proof fn law_unmanaged_replacements_are_refused_whole(
    change: GroupChangeView,
    request: ScimGroupRequestView,
    wanted: Seq<Seq<char>>,
    id: Seq<char>,
)
    requires
        change.intent == GroupIntentView::Replace(request),
        request.members == Some(wanted),
        change.facts.members matches Some(current) && !current.contains(id),
        wanted.contains(id),
        may_add(change.group, change.facts) == Ok::<bool, PendingView>(false),
        count_limit(wanted.len()) is Ok,
        resolution(wanted, change.facts) is Ok,
        external_id_change(change.group, request.external_id, change.facts) is Ok,
        name_change(request.display_name) is Ok,
    ensures
        change.check().1 == GroupStepView::Done(
            Err(ScimErrorView::bad_request("mutability"@, UNMANAGED_ADD@)),
        ),
{
    lemma_fresh(wanted, change.facts.members->Some_0);
    assert(fresh(wanted, change.facts.members->Some_0).contains(id));
}

/// While a change is being checked, nothing is written.
pub proof fn law_checks_write_nothing(change: GroupChangeView, reply: GroupReplyView)
    requires
        change.phase is Checking,
        change.resume(reply).0.phase is Checking || change.resume(reply).1 is Done,
    ensures
        change.resume(reply).1 matches GroupStepView::Ask(command) ==> command is Lookup,
{
}

/// The answer to an id that is no member of the organization is always the same.
pub proof fn law_unresolvable_members_are_uniform(
    values: Seq<Seq<char>>,
    facts: GroupFactsView,
    e: ScimErrorView,
)
    requires
        resolution(values, facts) == Err::<(), PendingView>(PendingView::Refused(e)),
    ensures
        e == unresolvable(),
{
}

/// The event log never claims a deletion that failed.
pub proof fn law_only_deletions_are_logged(deletion: GroupDeletionView, reply: DeletionReply)
    requires
        deletion.resume(reply).1 matches DeletionStepView::Ask(command) && command is Log,
    ensures
        deletion.phase is Deleting,
        reply == DeletionReply::Deleted(true),
{
}

/// A group is deleted only where SCIM may add members to it.
pub proof fn law_only_managed_groups_are_deleted(
    deletion: GroupDeletionView,
    granted: bool,
    group: GroupView,
)
    requires
        deletion.resume(DeletionReply::Collections(granted)).1 == DeletionStepView::Ask(
            DeletionCommandView::Delete(group),
        ),
    ensures
        group == deletion.group,
        may_add(
            group,
            GroupFactsView { has_collections: Some(granted), ..GroupFactsView::nothing() },
        ) == Ok::<bool, PendingView>(true),
{
}

/// Where a change of a group stands after a list of replies. Replies after the answer are
/// not looked at.
pub open spec fn run(
    start: (GroupChangeView, GroupStepView),
    replies: Seq<GroupReplyView>,
) -> (GroupChangeView, GroupStepView)
    decreases replies.len(),
{
    if replies.len() == 0 {
        start
    } else {
        let before = run(start, replies.drop_last());
        if before.1 is Done {
            before
        } else {
            before.0.resume(replies.last())
        }
    }
}

/// The member writes that were asked for and succeeded, in order.
pub open spec fn performed(
    start: (GroupChangeView, GroupStepView),
    replies: Seq<GroupReplyView>,
) -> Seq<MemberWriteView>
    decreases replies.len(),
{
    if replies.len() == 0 {
        Seq::empty()
    } else {
        let earlier = performed(start, replies.drop_last());
        if replies.last() != GroupReplyView::Saved(true) {
            earlier
        } else {
            match run(start, replies.drop_last()).1 {
                GroupStepView::Ask(GroupCommandView::AddMember(id)) => earlier.push(
                    MemberWriteView::Add(id),
                ),
                GroupStepView::Ask(GroupCommandView::RemoveMember(id)) => earlier.push(
                    MemberWriteView::Remove(id),
                ),
                _ => earlier,
            }
        }
    }
}

// The writes that were performed are the planned ones, as far as the change has come.
spec fn on_plan(state: (GroupChangeView, GroupStepView), performed: Seq<MemberWriteView>) -> bool {
    let change = state.0;
    let phase = change.phase;
    &&& phase is Checking || phase is Saving ==> performed.len() == 0
    &&& phase is Checking || phase is Saving || phase is Logging || phase is Listing ==> !(
    state.1 is Done)
    &&& phase is Checking ==> (state.1 matches GroupStepView::Ask(command) && command is Lookup)
    &&& phase is Saving ==> (state.1 matches GroupStepView::Ask(command) && command is Save)
    &&& phase is Logging ==> (state.1 matches GroupStepView::Ask(command) && command is Log)
    &&& phase is Listing ==> (state.1 matches GroupStepView::Ask(command) && command is Lookup)
    &&& phase is Writing ==> {
        &&& 0 <= change.written < change.writes.len()
        &&& performed =~= change.writes.take(change.written)
        &&& state.1 == GroupStepView::Ask(
            match change.writes[change.written] {
                MemberWriteView::Add(id) => GroupCommandView::AddMember(id),
                MemberWriteView::Remove(id) => GroupCommandView::RemoveMember(id),
            },
        )
    }
    &&& phase is Writing || phase is Logging || phase is Listing ==> change.member_plan()
        == change.writes
    &&& phase is Logging || phase is Listing ==> performed =~= change.writes
    &&& state.1 matches GroupStepView::Done(result) ==> {
        &&& phase is Finished
        &&& result is Ok ==> performed =~= change.writes && change.member_plan() == change.writes
    }
}

proof fn lemma_on_plan(
    change: GroupChangeView,
    start: (GroupChangeView, GroupStepView),
    replies: Seq<GroupReplyView>,
)
    requires
        start == change.check(),
    ensures
        on_plan(run(start, replies), performed(start, replies)),
    decreases replies.len(),
{
    if replies.len() > 0 {
        let earlier = replies.drop_last();
        lemma_on_plan(change, start, earlier);
        let before = run(start, earlier);
        if before.0.phase is Writing {
            let at = before.0.written;
            assert(before.0.writes.take(at).push(before.0.writes[at]) =~= before.0.writes.take(
                at + 1,
            ));
        }
    }
}

/// A change of a group that is answered with success is complete: every planned member write
/// was made, in order, and no other.
pub proof fn law_accepted_group_changes_are_complete(
    change: GroupChangeView,
    replies: Seq<GroupReplyView>,
)
    requires
        run(change.check(), replies).1 matches GroupStepView::Done(result) && result is Ok,
    ensures
        run(change.check(), replies).0.member_plan() == performed(change.check(), replies),
{
    lemma_on_plan(change, change.check(), replies);
    let end = run(change.check(), replies);
    assert(performed(change.check(), replies) =~= end.0.writes);
}

/// Whether a change of a group has written anything: the group itself, or one of its members.
pub open spec fn wrote(
    start: (GroupChangeView, GroupStepView),
    replies: Seq<GroupReplyView>,
) -> bool
    decreases replies.len(),
{
    replies.len() > 0 && (wrote(start, replies.drop_last()) || match run(
        start,
        replies.drop_last(),
    ).1 {
        GroupStepView::Ask(GroupCommandView::Save(_)) => replies.last() is Written,
        GroupStepView::Ask(GroupCommandView::AddMember(_)) => true,
        GroupStepView::Ask(GroupCommandView::RemoveMember(_)) => true,
        _ => false,
    })
}

proof fn lemma_writes_follow_the_checks(
    change: GroupChangeView,
    start: (GroupChangeView, GroupStepView),
    replies: Seq<GroupReplyView>,
)
    requires
        start == change.check(),
    ensures
        run(start, replies).0.phase is Checking || run(start, replies).0.phase is Saving ==> !wrote(
            start,
            replies,
        ),
        run(start, replies).1 matches GroupStepView::Done(Err(e)) && e != ScimErrorView::internal()
            ==> !wrote(start, replies),
    decreases replies.len(),
{
    if replies.len() > 0 {
        lemma_writes_follow_the_checks(change, start, replies.drop_last());
        lemma_on_plan(change, start, replies.drop_last());
    }
}

/// A change that is refused leaves the group exactly as it was, be it a creation, a
/// replacement or a patch: whatever the database answers, nothing has been written where the
/// answer is not an internal error.
pub proof fn law_refused_group_changes_write_nothing(
    change: GroupChangeView,
    replies: Seq<GroupReplyView>,
    e: ScimErrorView,
)
    requires
        run(change.check(), replies).1 == GroupStepView::Done(Err(e)),
        e != ScimErrorView::internal(),
    ensures
        !wrote(change.check(), replies),
{
    lemma_writes_follow_the_checks(change, change.check(), replies);
}

proof fn lemma_verdicts_are_well_typed(change: GroupChangeView)
    ensures
        change.verdict() matches Err(PendingView::Refused(e)) ==> e.well_typed(),
        change.check().1 matches GroupStepView::Done(Err(e)) ==> e.well_typed(),
{
}

/// Whatever a change of a group is refused for, the answer is one that RFC 7644 knows.
pub proof fn law_refusals_of_group_changes_are_well_typed(
    change: GroupChangeView,
    reply: GroupReplyView,
    deletion: GroupDeletionView,
    deletion_reply: DeletionReply,
)
    ensures
        change.resume(reply).1 matches GroupStepView::Done(Err(e)) ==> e.well_typed(),
        change.check().1 matches GroupStepView::Done(Err(e)) ==> e.well_typed(),
        deletion.resume(deletion_reply).1 matches DeletionStepView::Done(Err(e))
            ==> e.well_typed(),
{
    lemma_verdicts_are_well_typed(change);
    if let Some(facts) = learned(change.facts, reply) {
        lemma_verdicts_are_well_typed(GroupChangeView { facts, ..change });
    }
}

} // verus!
